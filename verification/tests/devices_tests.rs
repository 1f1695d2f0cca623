use syncthing_cli::devices::{
    add_device_if_missing, device_line, device_matches, device_names, find_current_device,
    include_current_device, no_devices_message, paused_device_line, resolve_devices, select_devices,
    short_id, DeviceEntry,
};
use syncthing_cli::errors::CliError;

fn device(id: &str, name: &str, paused: bool) -> DeviceEntry {
    DeviceEntry {
        device_id: Some(id.to_string()),
        name: Some(name.to_string()),
        paused: Some(paused),
    }
}

fn sample_devices() -> Vec<DeviceEntry> {
    vec![
        device("AAAAAAA-BBBB", "nas", true),
        device("CCCCCCC-DDDD", "alessio-desktop", false),
        device("EEEEEEE-FFFF", "aso", true),
    ]
}

#[test]
fn select_devices_all_unpause_returns_only_paused() {
    let devs = sample_devices();
    let selected = select_devices(&devs, None, true, false).unwrap();
    let names: Vec<&str> = selected.iter().map(|(_, n)| n.as_str()).collect();
    assert_eq!(names, vec!["nas", "aso"]);
}

#[test]
fn select_devices_all_pause_returns_only_unpaused() {
    let devs = sample_devices();
    let selected = select_devices(&devs, None, true, true).unwrap();
    let names: Vec<&str> = selected.iter().map(|(_, n)| n.as_str()).collect();
    assert_eq!(names, vec!["alessio-desktop"]);
}

#[test]
fn select_devices_matches_by_name_case_insensitive() {
    let devs = sample_devices();
    let selected = select_devices(&devs, Some("Nas"), false, false).unwrap();
    assert_eq!(selected.len(), 1);
    assert_eq!(selected[0].1, "nas");
}

#[test]
fn select_devices_matches_by_id_prefix() {
    let devs = sample_devices();
    let selected = select_devices(&devs, Some("ccccccc"), false, false).unwrap();
    assert_eq!(selected.len(), 1);
    assert_eq!(selected[0].1, "alessio-desktop");
}

#[test]
fn select_devices_errors_when_no_match() {
    let devs = sample_devices();
    let err = select_devices(&devs, Some("nope"), false, false).unwrap_err();
    assert!(err.to_string().contains("no device matched"));
}

#[test]
fn select_devices_errors_when_all_and_query_combined() {
    let devs = sample_devices();
    let err = select_devices(&devs, Some("nas"), true, false).unwrap_err();
    assert!(err.to_string().contains("either a device or --all"));
}

#[test]
fn select_devices_errors_when_neither_all_nor_query() {
    let devs = sample_devices();
    let err = select_devices(&devs, None, false, false).unwrap_err();
    assert!(err.to_string().contains("specify a device"));
}

#[test]
fn add_device_if_missing_appends_only_new_devices() {
    let mut devices = vec![("AAAAAAA-BBBB".to_string(), "nas".to_string())];

    add_device_if_missing(
        &mut devices,
        ("AAAAAAA-BBBB".to_string(), "nas-duplicate".to_string()),
    );
    add_device_if_missing(
        &mut devices,
        ("CCCCCCC-DDDD".to_string(), "alessio-desktop".to_string()),
    );

    let names: Vec<&str> = devices.iter().map(|(_, name)| name.as_str()).collect();
    assert_eq!(names, vec!["nas", "alessio-desktop"]);
}

#[test]
fn adding_same_device_twice_is_same_as_once() {
    let mut once = vec![("A".to_string(), "a".to_string())];
    add_device_if_missing(&mut once, ("B".to_string(), "b".to_string()));
    let mut twice = once.clone();
    add_device_if_missing(&mut twice, ("B".to_string(), "b2".to_string()));
    assert_eq!(once, twice);
}

#[test]
fn select_devices_reports_ambiguous_query() {
    let devs = vec![
        device("ABC-1", "one", false),
        device("ABD-2", "two", false),
    ];
    let err = select_devices(&devs, Some("ab"), false, false).unwrap_err();
    assert_eq!(err.to_string(), "'ab' matched multiple devices: one, two");
    assert!(matches!(err, CliError::AmbiguousDevice(_, ref names) if names.len() == 2));
}

#[test]
fn select_devices_error_messages_are_exact() {
    let devs = sample_devices();
    assert_eq!(
        select_devices(&devs, Some("nope"), false, false).unwrap_err().to_string(),
        "no device matched 'nope'"
    );
    assert_eq!(
        select_devices(&devs, Some("nas"), true, true).unwrap_err().to_string(),
        "specify either a device or --all, not both"
    );
    assert_eq!(
        select_devices(&devs, None, false, true).unwrap_err().to_string(),
        "specify a device name/ID or --all"
    );
}

#[test]
fn devices_without_id_are_never_selected() {
    let devs = vec![
        DeviceEntry { device_id: None, name: Some("ghost".to_string()), paused: Some(true) },
        DeviceEntry { device_id: Some("X1".to_string()), name: None, paused: None },
    ];
    let unpause = select_devices(&devs, None, true, false).unwrap();
    assert!(unpause.is_empty());
    let pause = select_devices(&devs, None, true, true).unwrap();
    assert_eq!(pause, vec![("X1".to_string(), "X1".to_string())]);
}

#[test]
fn device_matches_uses_unicode_lowercase_for_prefix() {
    let d = device("ÄBC-123", "box", false);
    assert!(device_matches(&d, "äb"));
    assert!(device_matches(&d, "BOX"));
    assert!(device_matches(&d, "äbc-123"));
    assert!(!device_matches(&d, "bc"));
}

#[test]
fn resolve_devices_needs_a_query() {
    let devs = sample_devices();
    let err = resolve_devices(&devs, &[]).unwrap_err();
    assert_eq!(err.to_string(), "specify at least one --device");
}

#[test]
fn resolve_devices_one_per_query_in_order() {
    let devs = sample_devices();
    let queries = vec!["aso".to_string(), "AAAAAAA".to_string()];
    let sel = resolve_devices(&devs, &queries).unwrap();
    assert_eq!(
        sel,
        vec![
            ("EEEEEEE-FFFF".to_string(), "aso".to_string()),
            ("AAAAAAA-BBBB".to_string(), "nas".to_string()),
        ]
    );
    let bad = vec!["aso".to_string(), "zzz".to_string()];
    assert_eq!(resolve_devices(&devs, &bad).unwrap_err().to_string(), "no device matched 'zzz'");
}

#[test]
fn find_current_device_names() {
    let devs = vec![
        DeviceEntry { device_id: Some("ME".to_string()), name: None, paused: None },
        device("YOU", "you", false),
    ];
    assert_eq!(find_current_device(&devs, "YOU"), ("YOU".to_string(), "you".to_string()));
    assert_eq!(find_current_device(&devs, "ME"), ("ME".to_string(), "this-device".to_string()));
    assert_eq!(find_current_device(&devs, "NOPE"), ("NOPE".to_string(), "this-device".to_string()));
}

#[test]
fn include_current_device_adds_once() {
    let devs = sample_devices();
    let mut sel = vec![("EEEEEEE-FFFF".to_string(), "aso".to_string())];
    include_current_device(&mut sel, "AAAAAAA-BBBB", &devs);
    include_current_device(&mut sel, "EEEEEEE-FFFF", &devs);
    assert_eq!(
        sel,
        vec![
            ("EEEEEEE-FFFF".to_string(), "aso".to_string()),
            ("AAAAAAA-BBBB".to_string(), "nas".to_string()),
        ]
    );
}

#[test]
fn device_names_joined() {
    let sel = vec![
        ("A".to_string(), "nas".to_string()),
        ("B".to_string(), "aso".to_string()),
    ];
    assert_eq!(device_names(&sel), "nas, aso");
    assert_eq!(device_names(&[]), "");
}

#[test]
fn short_id_is_first_seven_bytes() {
    assert_eq!(short_id("3NF6RRU-U3MGBPO"), "3NF6RRU");
    assert_eq!(short_id("abc"), "abc");
    assert_eq!(short_id("ééé-x"), "ééé-");
}

#[test]
fn pause_messages() {
    assert_eq!(no_devices_message(true), "No devices to pause");
    assert_eq!(no_devices_message(false), "No devices to unpause");
    assert_eq!(paused_device_line(true, "AAAAAAA-BBBB", "nas"), "paused nas (AAAAAAA)");
    assert_eq!(paused_device_line(false, "AAAAAAA-BBBB", "nas"), "unpaused nas (AAAAAAA)");
}

#[test]
fn device_line_pads_columns() {
    let d = device("ABCDEFGHIJ", "laptop", false);
    assert_eq!(
        device_line(&d, true, "2h ago"),
        format!("{:<20} ({}) {:<12} last: {}", "laptop", "ABCDEFG", "connected", "2h ago")
    );
    let anon = DeviceEntry { device_id: None, name: None, paused: None };
    assert_eq!(
        device_line(&anon, false, "never"),
        format!("{:<20} ({}) {:<12} last: {}", "?", "?", "offline", "never")
    );
}
