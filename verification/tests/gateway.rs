use proxy_pool::gateway::ProxyGateway;
use proxy_pool::proxy::{CatalogSource, ProxyError};

#[test]
fn defaults_are_enabled_and_well_known_path() {
    let g = ProxyGateway::new();
    assert!(g.is_proxy_enabled());
    assert_eq!(g.get_proxy_file_path(), "proxies.txt");
    assert_eq!(g.get_proxy_manager().proxy_count(), 0);
}

#[test]
fn enabled_flag_round_trips() {
    let mut g = ProxyGateway::new();
    g.set_proxy_enabled(false);
    assert!(!g.is_proxy_enabled());
    g.set_proxy_enabled(true);
    assert!(g.is_proxy_enabled());
}

#[test]
fn file_path_round_trips() {
    let mut g = ProxyGateway::new();
    g.set_proxy_file_path(String::from("other/proxies.txt"));
    assert_eq!(g.get_proxy_file_path(), "other/proxies.txt");
}

#[test]
fn should_use_proxy_is_enabled_and_file_exists() {
    let mut g = ProxyGateway::new();
    assert!(g.should_use_proxy(true));
    assert!(!g.should_use_proxy(false));
    g.set_proxy_enabled(false);
    assert!(!g.should_use_proxy(true));
    assert!(!g.should_use_proxy(false));
}

#[test]
fn gateway_selection_delegates_to_catalog() {
    let mut g = ProxyGateway::new();
    let source = CatalogSource::Text(String::from("9.9.9.9:53:quad:nine"));
    let p = g.get_random_proxy(0, &source).unwrap();
    assert_eq!(p.host, "9.9.9.9");
    assert_eq!(p.port, 53);
    assert_eq!(g.get_proxy_manager().proxy_count(), 1);
}

#[test]
fn gateway_selection_propagates_failure_kinds() {
    let mut g = ProxyGateway::new();
    assert_eq!(
        g.get_random_proxy(0, &CatalogSource::Missing).unwrap_err(),
        ProxyError::NotFound
    );
    assert_eq!(
        g.get_random_proxy(0, &CatalogSource::Unreadable).unwrap_err(),
        ProxyError::IoFailure
    );
    assert_eq!(
        g.get_random_proxy(0, &CatalogSource::Text(String::from("# none"))).unwrap_err(),
        ProxyError::EmptyCatalog
    );
}
