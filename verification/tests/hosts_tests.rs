use syncthing_cli::config::{Config, ConfigFileRead};
use syncthing_cli::hosts::{
    api_key_for_host, get_client, host_name, is_local_host, normalize_host, should_use_local_api_key,
    ClientSetupError,
};

#[test]
fn is_local_host_accepts_common_loopback_forms() {
    assert!(is_local_host("http://localhost:8384"));
    assert!(is_local_host("127.0.0.1:8384"));
    assert!(is_local_host("http://[::1]:8384"));
}

#[test]
fn is_local_host_rejects_remote_hosts() {
    assert!(!is_local_host("http://192.168.2.32:8384"));
    assert!(!is_local_host("nas:8384"));
}

#[test]
fn configured_local_host_uses_local_api_key() {
    assert!(should_use_local_api_key("http://localhost:8384"));
}

#[test]
fn is_local_host_handles_users_paths_and_schemes() {
    assert!(is_local_host("https://user@localhost:8384/rest"));
    assert!(is_local_host("localhost"));
    assert!(!is_local_host("http://localhost.example.com:8384"));
    assert!(!is_local_host("http://evil@nas:8384"));
}

#[test]
fn is_local_host_takes_whole_rest_without_at_sign() {
    // Without an '@', the authority is all of the host after its scheme,
    // so a path without a port is part of the name.
    assert!(!is_local_host("http://localhost/rest"));
    assert!(is_local_host("http://localhost:8384/rest"));
}

#[test]
fn host_name_strips_port_and_brackets() {
    assert_eq!(host_name("nas:8384"), "nas");
    assert_eq!(host_name("[::1]:8384"), "::1");
    assert_eq!(host_name("[::1"), "[::1");
    assert_eq!(host_name("nas"), "nas");
}

#[test]
fn normalize_host_adds_scheme_once() {
    assert_eq!(normalize_host("192.168.2.32:8384"), "http://192.168.2.32:8384");
    assert_eq!(normalize_host("https://nas:8384"), "https://nas:8384");
    let once = normalize_host("nas:8384");
    assert_eq!(normalize_host(&once), once);
}

#[test]
fn normalizing_keeps_locality() {
    for h in ["127.0.0.1:8384", "nas:8384", "localhost", "[::1]:1"] {
        assert_eq!(is_local_host(&normalize_host(h)), is_local_host(h));
    }
}

#[test]
fn remote_host_uses_configured_key() {
    let config = Config { api_key: Some("remote-key".to_string()), host: None };
    let file = ConfigFileRead::Read("<apikey>local-key</apikey>".to_string());
    assert_eq!(api_key_for_host("http://nas:8384", &config, "p", &file).unwrap(), "remote-key");
    assert_eq!(api_key_for_host("http://localhost:8384", &config, "p", &file).unwrap(), "local-key");
}

#[test]
fn get_client_normalizes_override_and_trims_slashes() {
    let config = Config { api_key: Some("k".to_string()), host: None };
    let client = get_client(Some("nas:8384//"), &config, "p", &ConfigFileRead::Missing).unwrap();
    assert_eq!(client.base_url(), "http://nas:8384");
    assert_eq!(client.api_key(), "k");
}

#[test]
fn get_client_uses_configured_host() {
    let config = Config { api_key: None, host: None };
    let file = ConfigFileRead::Read("<apikey>local</apikey>".to_string());
    let client = get_client(None, &config, "p", &file).unwrap();
    assert_eq!(client.base_url(), "http://localhost:8384");
    assert_eq!(client.api_key(), "local");
}

#[test]
fn get_client_reports_missing_key() {
    let config = Config::default();
    let err = get_client(None, &config, "p", &ConfigFileRead::Missing).err().unwrap();
    assert!(matches!(err, ClientSetupError::Config(_)));
}
