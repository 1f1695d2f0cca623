use chrono::{Datelike, NaiveDate, Timelike};
use syncthing_cli::config::Config;
use syncthing_cli::times::UtcDateTime;
use syncthing_cli::reports::{
    apply_config_update, byte_unit, config_report, event_lines, folder_added_message,
    folder_error_lines, folder_removed_message, folder_shared_message, format_small_bytes,
    global_error_lines, indented_or_none, pending_device_lines, pending_folder_lines, scan_message,
    unit_divisor, unit_label, uptime_line, version_line, ByteUnit, EventEntry, FolderErrorEntry,
    FolderOffer, PendingDevice, PendingFolder, SystemErrorEntry,
};

fn now() -> UtcDateTime {
    let n = NaiveDate::from_ymd_opt(2024, 1, 2).unwrap().and_hms_opt(3, 0, 0).unwrap();
    UtcDateTime { day: n.num_days_from_ce(), second: n.num_seconds_from_midnight(), nano: n.nanosecond() }
}

#[test]
fn pending_folder_lines_reads_syncthing_offered_by_shape() {
    let folders = Some(vec![PendingFolder {
        folder_id: "wow-install".to_string(),
        offered_by: Some(vec![FolderOffer {
            device_id: "3NF6RRU-U3MGBPO-ITEFILB-YYWGIYA-X3M3CQD-T6XIAGH-4OZEQ5I-MJC5RQ7".to_string(),
            label: Some("World of Warcraft Install".to_string()),
        }]),
    }]);

    assert_eq!(
        pending_folder_lines(&folders),
        vec!["World of Warcraft Install from 3NF6RRU"]
    );
}

#[test]
fn pending_folder_lines_returns_empty_for_no_pending_folders() {
    assert!(pending_folder_lines(&Some(vec![])).is_empty());
}

#[test]
fn pending_folder_lines_defaults_and_non_objects() {
    let folders = Some(vec![
        PendingFolder { folder_id: "a".to_string(), offered_by: None },
        PendingFolder {
            folder_id: "b".to_string(),
            offered_by: Some(vec![
                FolderOffer { device_id: "DEV1".to_string(), label: None },
                FolderOffer { device_id: "DEVICE22-X".to_string(), label: Some("B!".to_string()) },
            ]),
        },
    ]);
    assert_eq!(pending_folder_lines(&folders), vec!["b from DEV1", "B! from DEVICE2"]);
    assert!(pending_folder_lines(&None).is_empty());
}

#[test]
fn indented_lines_or_none() {
    assert_eq!(indented_or_none(&vec![]), vec!["  (none)"]);
    assert_eq!(indented_or_none(&vec!["x".to_string()]), vec!["  x"]);
}

#[test]
fn pending_devices_lines() {
    assert_eq!(pending_device_lines(&None), vec!["  (none)"]);
    assert_eq!(pending_device_lines(&Some(vec![])), vec!["  (none)"]);
    let devs = Some(vec![
        PendingDevice { device_id: "ABCDEFGHI".to_string(), name: Some("phone".to_string()) },
        PendingDevice { device_id: "XYZ".to_string(), name: None },
    ]);
    assert_eq!(pending_device_lines(&devs), vec!["  phone (ABCDEFG)", "  unknown (XYZ)"]);
}

#[test]
fn byte_units() {
    assert_eq!(byte_unit(0), ByteUnit::B);
    assert_eq!(byte_unit(1023), ByteUnit::B);
    assert_eq!(byte_unit(1024), ByteUnit::KB);
    assert_eq!(byte_unit(1024 * 1024 - 1), ByteUnit::KB);
    assert_eq!(byte_unit(1024 * 1024), ByteUnit::MB);
    assert_eq!(byte_unit(1 << 30), ByteUnit::GB);
    assert_eq!(byte_unit(1 << 40), ByteUnit::TB);
    assert_eq!(byte_unit(u64::MAX), ByteUnit::TB);
    assert_eq!(unit_divisor(ByteUnit::GB), 1 << 30);
    assert_eq!(unit_label(ByteUnit::MB), "MB");
    assert_eq!(format_small_bytes(512), "512 B");
}

#[test]
fn byte_unit_keeps_value_below_1024() {
    for bytes in [1u64, 1023, 1024, 5000, 1 << 20, (1 << 30) + 7, (1 << 40) - 1] {
        let u = byte_unit(bytes);
        let d = unit_divisor(u);
        assert!(bytes / d < 1024);
        assert!(u == ByteUnit::B || bytes / d >= 1);
    }
}

#[test]
fn status_lines() {
    assert_eq!(version_line(Some("v1.23.0")), "Syncthing v1.23.0");
    assert_eq!(version_line(None), "Syncthing unknown");
    assert_eq!(uptime_line(Some(3600)), "Uptime: 1h 0m");
    assert_eq!(uptime_line(Some(7 * 3600 + 59 * 60 + 59)), "Uptime: 7h 59m");
    assert_eq!(uptime_line(None), "Uptime: 0h 0m");
}

#[test]
fn folder_errors() {
    assert_eq!(folder_error_lines("f", &None), vec!["No errors for folder 'f'"]);
    assert_eq!(folder_error_lines("f", &Some(vec![])), vec!["No errors for folder 'f'"]);
    let errs = Some(vec![
        FolderErrorEntry { path: Some("a/b".to_string()), error: Some("denied".to_string()) },
        FolderErrorEntry { path: None, error: None },
    ]);
    assert_eq!(folder_error_lines("f", &errs), vec!["a/b: denied", "?: ?"]);
}

#[test]
fn global_errors() {
    assert_eq!(global_error_lines(&None, &now()), vec!["No errors"]);
    let errs = Some(vec![
        SystemErrorEntry { when: Some("2024-01-01T00:00:00Z".to_string()), message: Some("Test error".to_string()) },
        SystemErrorEntry { when: None, message: None },
    ]);
    assert_eq!(global_error_lines(&errs, &now()), vec!["[1d ago] Test error", "[?] ?"]);
}

#[test]
fn events_newest_first_and_limited() {
    let events = Some(vec![
        EventEntry { id: Some(1), kind: Some("Starting".to_string()), time: Some("2024-01-02T02:59:30Z".to_string()) },
        EventEntry { id: Some(2), kind: Some("StateChanged".to_string()), time: Some("2024-01-02T01:00:00+00:00".to_string()) },
        EventEntry { id: None, kind: None, time: Some("not a time".to_string()) },
    ]);
    assert_eq!(
        event_lines(&events, 2, &now()),
        vec!["[0] not a time - ?", "[2] 2h ago - StateChanged"]
    );
    assert_eq!(event_lines(&events, 10, &now()).len(), 3);
    assert_eq!(event_lines(&events, 10, &now())[2], "[1] just now - Starting");
    assert!(event_lines(&None, 10, &now()).is_empty());
}

#[test]
fn config_report_and_update() {
    let mut cfg = Config::default();
    assert_eq!(config_report(&cfg), vec!["API Key: (from syncthing config)", "Host: http://localhost:8384"]);
    apply_config_update(&mut cfg, Some("k".to_string()), None);
    apply_config_update(&mut cfg, None, Some("http://nas:8384".to_string()));
    assert_eq!(cfg.api_key, Some("k".to_string()));
    assert_eq!(config_report(&cfg), vec!["API Key: k", "Host: http://nas:8384"]);
}

#[test]
fn messages() {
    assert_eq!(scan_message(Some("docs")), "Scan triggered for folder: docs");
    assert_eq!(scan_message(None), "Scan triggered for all folders");
    assert_eq!(folder_added_message("id", "/p", "nas, aso"), "added folder id at /p shared with nas, aso");
    assert_eq!(folder_shared_message("id", "nas"), "shared folder id with nas");
    assert_eq!(folder_removed_message("id"), "removed folder id");
}
