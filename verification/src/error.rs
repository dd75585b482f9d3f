//! The error classifier: turns a completed HTTP response's status code,
//! a transport failure, or a payload decoding failure into one
//! structured error value, without downgrading any of the three.

use vstd::prelude::*;

use crate::text::{dec_digits, u16_to_string};

verus! {

/// prost::DecodeError, declared so the decoding-failure kind can carry
/// it; the value is opaque here.
#[verifier::external_type_specification]
#[verifier::external_body]
pub struct ExDecodeError(prost::DecodeError);

/// reqwest::Error, declared so the transport-failure kind can carry
/// it; the value is opaque here.
#[verifier::external_type_specification]
#[verifier::external_body]
pub struct ExReqwestError(reqwest::Error);

/// The reason phrase, if any, that the canonical status-reason table
/// assigns to a status code. The table is fixed, so the result depends
/// on the code alone.
pub uninterp spec fn reason_of(code: u16) -> Option<Seq<char>>;

/// Relies on http::StatusCode::from_u16 and StatusCode::canonical_reason:
/// from_u16 accepts exactly the codes 100 through 999, and
/// canonical_reason looks the accepted code up in the fixed canonical
/// reason-phrase table, returning None for a code outside the table.
#[verifier::external_body]
fn canonical_reason_of(code: u16) -> (r: Option<&'static str>)
    ensures
        r matches Some(s) ==> reason_of(code) == Some(s@),
        r is None ==> reason_of(code) is None,
        code < 100 || code > 999 ==> r is None,
{
    match http::StatusCode::from_u16(code) {
        Ok(status) => status.canonical_reason(),
        Err(_) => None,
    }
}

/// The reason synthesized for a code the canonical table does not know.
pub open spec fn unknown_status_text(code: u16) -> Seq<char> {
    "Unknown status code "@ + dec_digits(code as int)
}

/// The short human-readable description of a status code: its canonical
/// reason phrase where the table defines one, otherwise the synthesized
/// `Unknown status code {code}` text.
pub open spec fn status_reason(code: u16) -> Seq<char> {
    match reason_of(code) {
        Some(reason) => reason,
        None => unknown_status_text(code),
    }
}

/// A short, human-readable description of an HTTP status code,
/// resolved from the canonical status-reason table and never from a
/// response body; any code outside the table gets the synthesized text.
pub fn describe_status(code: u16) -> (r: String)
    ensures
        r@ == status_reason(code),
{
    match canonical_reason_of(code) {
        Some(reason) => reason.to_owned(),
        None => String::from_str("Unknown status code ").concat(u16_to_string(code).as_str()),
    }
}

/// How a completed or failed exchange with the orchestrator went wrong.
pub enum OrchestratorError {
    /// The binary payload of a completed response failed to decode.
    Decode(prost::DecodeError),
    /// The exchange failed below the HTTP layer: connection, timeout,
    /// TLS, DNS.
    Reqwest(reqwest::Error),
    /// The exchange completed with a non-success status.
    Http { status: u16, message: String },
}

impl From<prost::DecodeError> for OrchestratorError {
    /// A decoding failure keeps its own kind.
    fn from(e: prost::DecodeError) -> (r: OrchestratorError)
        ensures
            r == OrchestratorError::Decode(e),
    {
        OrchestratorError::Decode(e)
    }
}

impl vstd::std_specs::convert::FromSpecImpl<prost::DecodeError> for OrchestratorError {
    open spec fn obeys_from_spec() -> bool {
        true
    }

    open spec fn from_spec(e: prost::DecodeError) -> OrchestratorError {
        OrchestratorError::Decode(e)
    }
}

impl From<reqwest::Error> for OrchestratorError {
    /// A transport-layer failure keeps its own kind.
    fn from(e: reqwest::Error) -> (r: OrchestratorError)
        ensures
            r == OrchestratorError::Reqwest(e),
    {
        OrchestratorError::Reqwest(e)
    }
}

impl vstd::std_specs::convert::FromSpecImpl<reqwest::Error> for OrchestratorError {
    open spec fn obeys_from_spec() -> bool {
        true
    }

    open spec fn from_spec(e: reqwest::Error) -> OrchestratorError {
        OrchestratorError::Reqwest(e)
    }
}

impl OrchestratorError {
    /// The error for a completed response with the given status code:
    /// the HTTP-status kind, carrying the code and its description.
    pub fn from_status(status: u16) -> (r: OrchestratorError)
        ensures
            r matches OrchestratorError::Http { status: s, message: m } && s == status && m@
                == status_reason(status),
    {
        let message = describe_status(status);
        OrchestratorError::Http { status, message }
    }
}

} // verus!
