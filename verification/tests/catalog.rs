use proxy_pool::proxy::{CatalogSource, ProxyConfig, ProxyError, ProxyManager};

fn text(s: &str) -> CatalogSource {
    CatalogSource::Text(String::from(s))
}

#[test]
fn well_formed_line_parses_exactly() {
    let c = ProxyConfig::from_string("1.2.3.4:8080:alice:secret").unwrap();
    assert_eq!(c.host, "1.2.3.4");
    assert_eq!(c.port, 8080);
    assert_eq!(c.username, "alice");
    assert_eq!(c.password, "secret");
}

#[test]
fn line_is_trimmed_before_parsing() {
    let c = ProxyConfig::from_string("  \th.example:65535:u:p\r\n").unwrap();
    assert_eq!(c.host, "h.example");
    assert_eq!(c.port, 65535);
    assert_eq!(c.username, "u");
    assert_eq!(c.password, "p");
}

#[test]
fn unicode_blank_space_is_trimmed_like_str_trim() {
    // Form feed, vertical tab, no-break space, ideographic space: all
    // removed at the ends, exactly as str::trim removes them.
    let c = ProxyConfig::from_string("\u{0C}\u{0B}\u{A0}h.example:80:u:p\u{3000}\u{2028}").unwrap();
    assert_eq!(c.host, "h.example");
    assert_eq!(c.password, "p");
    // A line of nothing but such blanks is skipped as blank.
    let (entries, malformed) = proxy_pool::proxy::parse_catalog("\u{A0}\u{2003}\u{0C}\n");
    assert_eq!(entries.len(), 0);
    assert_eq!(malformed.len(), 0);
}

#[test]
fn port_with_plus_sign_parses_like_str_parse() {
    let c = ProxyConfig::from_string("h:+80:u:p").unwrap();
    assert_eq!(c.port, 80);
}

#[test]
fn too_few_fields_fail() {
    let r = ProxyConfig::from_string("h:80:u");
    assert_eq!(r.unwrap_err(), "Invalid proxy format: h:80:u");
}

#[test]
fn too_many_fields_fail() {
    let r = ProxyConfig::from_string("h:80:u:p:extra");
    assert_eq!(r.unwrap_err(), "Invalid proxy format: h:80:u:p:extra");
}

#[test]
fn out_of_range_port_fails() {
    let r = ProxyConfig::from_string("h:70000:u:p");
    assert_eq!(r.unwrap_err(), "Invalid port in proxy: h:70000:u:p");
}

#[test]
fn non_numeric_port_fails() {
    assert!(ProxyConfig::from_string("h:12a:u:p").is_err());
    assert!(ProxyConfig::from_string("h::u:p").is_err());
    assert!(ProxyConfig::from_string("h: 80:u:p").is_err());
    assert!(ProxyConfig::from_string("h:-80:u:p").is_err());
}

#[test]
fn empty_line_fails() {
    assert!(ProxyConfig::from_string("").is_err());
    assert!(ProxyConfig::from_string("   ").is_err());
}

#[test]
fn display_string_omits_credentials() {
    let c = ProxyConfig::from_string("1.2.3.4:8080:alice:secret").unwrap();
    assert_eq!(c.to_display_string(), "1.2.3.4:8080");
}

#[test]
fn display_string_port_edges() {
    let c = ProxyConfig::from_string("h:0:u:p").unwrap();
    assert_eq!(c.to_display_string(), "h:0");
    let c = ProxyConfig::from_string("h:65535:u:p").unwrap();
    assert_eq!(c.to_display_string(), "h:65535");
}

#[test]
fn reqwest_proxy_conversion_succeeds_for_ordinary_entry() {
    let c = ProxyConfig::from_string("1.2.3.4:8080:alice:secret").unwrap();
    assert!(c.to_reqwest_proxy().is_ok());
}

#[test]
fn reqwest_proxy_conversion_rejects_a_hostless_entry() {
    // An empty host is a valid catalog record, but `http://:8080` is
    // no URL: the constructor rejects it and the error is returned.
    let c = ProxyConfig::from_string(":8080:u:p").unwrap();
    assert_eq!(c.host, "");
    assert!(c.to_reqwest_proxy().is_err());
}

#[test]
fn catalog_scenario_counts_and_skips() {
    let content = "# comment\n1.2.3.4:8080:alice:secret\nbad-line-missing-fields\n5.6.7.8:3128:bob:pw\n";
    let (entries, malformed) = proxy_pool::proxy::parse_catalog(content);
    assert_eq!(entries.len(), 2);
    assert_eq!(entries[0].host, "1.2.3.4");
    assert_eq!(entries[1].host, "5.6.7.8");
    // one-based number of the only malformed line
    assert_eq!(malformed, vec![3]);
}

#[test]
fn blank_and_comment_lines_are_not_malformed() {
    let content = "\n   \n# note\n\t# indented comment\n";
    let (entries, malformed) = proxy_pool::proxy::parse_catalog(content);
    assert_eq!(entries.len(), 0);
    assert_eq!(malformed.len(), 0);
}

#[test]
fn fresh_manager_is_stale_and_empty() {
    let m = ProxyManager::new();
    assert_eq!(m.proxy_count(), 0);
    assert!(m.needs_reload(0));
}

#[test]
fn reload_within_interval_reads_only_once() {
    let mut m = ProxyManager::new();
    assert!(m.ensure_proxies_loaded(0, &text("a:1:u:p")).is_ok());
    assert_eq!(m.proxy_count(), 1);
    // Fresh again: the source is not even consulted — a missing file
    // would otherwise fail the call.
    assert!(!m.needs_reload(300));
    assert!(m.ensure_proxies_loaded(300, &CatalogSource::Missing).is_ok());
    assert_eq!(m.proxy_count(), 1);
    // Once the interval has elapsed, exactly one more read happens.
    assert!(m.needs_reload(301));
    assert!(m.ensure_proxies_loaded(301, &text("a:1:u:p\nb:2:u:p")).is_ok());
    assert_eq!(m.proxy_count(), 2);
    assert!(!m.needs_reload(301));
}

#[test]
fn deadline_overflow_counts_as_fresh() {
    let mut m = ProxyManager::new();
    assert!(m.ensure_proxies_loaded(u64::MAX, &text("a:1:u:p")).is_ok());
    // last load time plus the interval exceeds every clock value, so
    // the catalog can never be seen as stale again.
    assert!(!m.needs_reload(u64::MAX));
    assert!(m.ensure_proxies_loaded(u64::MAX, &CatalogSource::Missing).is_ok());
    assert_eq!(m.proxy_count(), 1);
}

#[test]
fn missing_and_unreadable_sources_report_their_kinds() {
    let mut m = ProxyManager::new();
    assert_eq!(
        m.ensure_proxies_loaded(0, &CatalogSource::Missing).unwrap_err(),
        ProxyError::NotFound
    );
    assert_eq!(
        m.ensure_proxies_loaded(0, &CatalogSource::Unreadable).unwrap_err(),
        ProxyError::IoFailure
    );
    assert_eq!(m.proxy_count(), 0);
}

#[test]
fn empty_reload_keeps_prior_state() {
    let mut m = ProxyManager::new();
    assert!(m.ensure_proxies_loaded(0, &text("a:1:u:p")).is_ok());
    assert_eq!(m.proxy_count(), 1);
    // Stale, but the new text holds zero valid entries.
    let r = m.ensure_proxies_loaded(1000, &text("# nothing\nbroken-line\n"));
    assert_eq!(r.unwrap_err(), ProxyError::EmptyCatalog);
    // Entry count unchanged, and the load timestamp unchanged too:
    // the catalog still reports itself stale at the same instant.
    assert_eq!(m.proxy_count(), 1);
    assert!(m.needs_reload(1000));
}

#[test]
fn empty_source_on_first_load_reports_empty_catalog() {
    let mut m = ProxyManager::new();
    let r = m.ensure_proxies_loaded(0, &text(""));
    assert_eq!(r.unwrap_err(), ProxyError::EmptyCatalog);
    assert_eq!(m.proxy_count(), 0);
}

#[test]
fn random_selection_returns_exact_catalog_elements() {
    let content = "# comment\n1.2.3.4:8080:alice:secret\nbad-line-missing-fields\n5.6.7.8:3128:bob:pw\n";
    let mut m = ProxyManager::new();
    let mut saw_alice = false;
    let mut saw_bob = false;
    for _ in 0..200 {
        let p = m.get_random_proxy(0, &text(content)).unwrap();
        let fields = (p.host.as_str(), p.port, p.username.as_str(), p.password.as_str());
        if fields == ("1.2.3.4", 8080, "alice", "secret") {
            saw_alice = true;
        } else if fields == ("5.6.7.8", 3128, "bob", "pw") {
            saw_bob = true;
        } else {
            panic!("selected an entry that is not in the catalog");
        }
    }
    assert!(saw_alice && saw_bob);
}

#[test]
fn selection_propagates_reload_failure() {
    let mut m = ProxyManager::new();
    assert_eq!(
        m.get_random_proxy(0, &CatalogSource::Missing).unwrap_err(),
        ProxyError::NotFound
    );
}
