use syncthing_cli::config::{
    extract_api_key_from_path, extract_api_key_from_xml, get_api_key, get_local_api_key, Config,
    ConfigError, ConfigFileRead,
};

#[test]
fn test_default_config() {
    let config = Config::default();
    assert_eq!(config.api_key, None);
    assert_eq!(config.host, None);
    assert_eq!(config.host(), "http://localhost:8384");
}

#[test]
fn test_config_with_custom_host() {
    let config = Config {
        api_key: None,
        host: Some("http://192.168.1.100:8384".to_string()),
    };
    assert_eq!(config.host(), "http://192.168.1.100:8384");
}

#[test]
fn test_extract_api_key_from_xml() {
    let xml = r#"
<configuration version="37">
    <gui enabled="true" tls="false" debugging="false" sendBasicAuthPrompt="false">
        <address>127.0.0.1:8384</address>
        <apikey>abc123def456</apikey>
    </gui>
</configuration>
"#;
    let key = extract_api_key_from_xml(xml).unwrap();
    assert_eq!(key, "abc123def456");
}

#[test]
fn test_extract_api_key_missing() {
    let xml = "<configuration></configuration>";
    let result = extract_api_key_from_xml(xml);
    assert!(result.is_err());
}

#[test]
fn test_extract_api_key_from_path() {
    let xml = "<configuration><gui><apikey>mykey123</apikey></gui></configuration>";
    let file = ConfigFileRead::Read(xml.to_string());
    let key = extract_api_key_from_path("\"/tmp/config.xml\"", &file).unwrap();
    assert_eq!(key, "mykey123");
}

#[test]
fn test_extract_api_key_from_missing_file() {
    let result = extract_api_key_from_path("\"/nonexistent/config.xml\"", &ConfigFileRead::Missing);
    assert!(result.is_err());
}

#[test]
fn missing_file_error_names_the_path() {
    let err = extract_api_key_from_path("\"/nonexistent/config.xml\"", &ConfigFileRead::Missing).unwrap_err();
    assert_eq!(
        err.to_string(),
        "No API key found. Either configure with 'syncthing config --api-key <KEY>' or ensure syncthing is running with config at \"/nonexistent/config.xml\""
    );
}

#[test]
fn unreadable_file_gives_read_error() {
    let file = ConfigFileRead::Unreadable("permission denied".to_string());
    let err = extract_api_key_from_path("p", &file).unwrap_err();
    assert!(matches!(err, ConfigError::ReadFailed(ref why) if why == "permission denied"));
    assert_eq!(err.to_string(), "Failed to read syncthing config.xml");
}

#[test]
fn missing_element_message() {
    let err = extract_api_key_from_xml("<apikey>unterminated").unwrap_err();
    assert!(matches!(err, ConfigError::NoApiKeyElement));
    assert_eq!(err.to_string(), "No apikey element found in config");
}

#[test]
fn api_key_round_trip_reads_back_written_key() {
    let written = "k3y-with<angle>";
    let xml = format!("<gui><x>1</x><apikey>{}</apikey><apikey>second</apikey>", written);
    assert_eq!(extract_api_key_from_xml(&xml).unwrap(), written);
}

#[test]
fn api_key_may_be_empty() {
    assert_eq!(extract_api_key_from_xml("<apikey></apikey>").unwrap(), "");
}

#[test]
fn closing_tag_before_opening_is_ignored() {
    assert_eq!(extract_api_key_from_xml("</apikey><apikey>abc</apikey>").unwrap(), "abc");
}

#[test]
fn configured_key_wins_over_file() {
    let config = Config { api_key: Some("configured".to_string()), host: None };
    let file = ConfigFileRead::Read("<apikey>fromfile</apikey>".to_string());
    assert_eq!(get_api_key(&config, "p", &file).unwrap(), "configured");
    assert_eq!(get_api_key(&config, "p", &ConfigFileRead::Missing).unwrap(), "configured");
}

#[test]
fn unconfigured_key_falls_back_to_file() {
    let config = Config::default();
    let file = ConfigFileRead::Read("<apikey>fromfile</apikey>".to_string());
    assert_eq!(get_api_key(&config, "p", &file).unwrap(), "fromfile");
    assert!(get_api_key(&config, "p", &ConfigFileRead::Missing).is_err());
}

#[test]
fn local_key_ignores_configured_key() {
    let file = ConfigFileRead::Read("<apikey>local</apikey>".to_string());
    assert_eq!(get_local_api_key("p", &file).unwrap(), "local");
}
