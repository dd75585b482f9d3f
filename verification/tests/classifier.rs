use proxy_pool::error::{describe_status, OrchestratorError};

#[test]
fn known_codes_use_the_canonical_reason() {
    assert_eq!(describe_status(200), "OK");
    assert_eq!(describe_status(404), "Not Found");
    assert_eq!(describe_status(500), "Internal Server Error");
}

#[test]
fn undefined_code_synthesizes_a_reason() {
    assert_eq!(describe_status(599), "Unknown status code 599");
}

#[test]
fn out_of_range_codes_synthesize_a_reason() {
    assert_eq!(describe_status(99), "Unknown status code 99");
    assert_eq!(describe_status(1000), "Unknown status code 1000");
    assert_eq!(describe_status(0), "Unknown status code 0");
    assert_eq!(describe_status(65535), "Unknown status code 65535");
}

#[test]
fn http_status_kind_carries_code_and_reason() {
    let e = OrchestratorError::from_status(404);
    match e {
        OrchestratorError::Http { status, message } => {
            assert_eq!(status, 404);
            assert_eq!(message, "Not Found");
        }
        _ => panic!("expected the HTTP-status kind"),
    }
}

#[test]
fn decode_failure_keeps_its_own_kind() {
    let e = OrchestratorError::from(prost::DecodeError::new("truncated message"));
    assert!(matches!(e, OrchestratorError::Decode(_)));
    assert!(!matches!(e, OrchestratorError::Http { .. }));
}
