use chrono::{Datelike, NaiveDate, NaiveDateTime, Timelike};
use syncthing_cli::times::{
    elapsed_whole_seconds, format_age, format_duration_since, last_seen_text, UtcDateTime,
};

fn utc(n: NaiveDateTime) -> UtcDateTime {
    UtcDateTime { day: n.num_days_from_ce(), second: n.num_seconds_from_midnight(), nano: n.nanosecond() }
}

fn now() -> UtcDateTime {
    utc(NaiveDate::from_ymd_opt(2024, 3, 10).unwrap().and_hms_opt(12, 0, 0).unwrap())
}

fn parsed(s: &str) -> NaiveDateTime {
    chrono::DateTime::parse_from_rfc3339(s).unwrap().naive_utc()
}

fn chrono_seconds(later: &str, earlier: &str) -> i64 {
    parsed(later).signed_duration_since(parsed(earlier)).num_seconds()
}

fn own_seconds(later: &str, earlier: &str) -> i64 {
    elapsed_whole_seconds(&utc(parsed(later)), &utc(parsed(earlier)))
}

#[test]
fn ages_in_coarsest_unit() {
    assert_eq!(format_age(0), "just now");
    assert_eq!(format_age(59), "just now");
    assert_eq!(format_age(60), "1m ago");
    assert_eq!(format_age(3599), "59m ago");
    assert_eq!(format_age(3600), "1h ago");
    assert_eq!(format_age(86399), "23h ago");
    assert_eq!(format_age(86400), "1d ago");
    assert_eq!(format_age(10 * 86400 + 5), "10d ago");
    assert_eq!(format_age(-5000), "just now");
}

#[test]
fn duration_since_reads_rfc3339() {
    assert_eq!(format_duration_since("2024-03-10T11:58:00Z", &now()), "2m ago");
    assert_eq!(format_duration_since("2024-03-10T13:00:00+02:00", &now()), "1h ago");
    assert_eq!(format_duration_since("2024-03-07T12:00:00.5Z", &now()), "2d ago");
    assert_eq!(format_duration_since("2024-03-10T12:00:30Z", &now()), "just now");
}

#[test]
fn duration_since_keeps_other_text() {
    assert_eq!(format_duration_since("yesterday", &now()), "yesterday");
    assert_eq!(format_duration_since("?", &now()), "?");
}

#[test]
fn last_seen() {
    assert_eq!(last_seen_text(None, &now()), "never");
    assert_eq!(last_seen_text(Some("2024-03-09T12:00:00Z"), &now()), "1d ago");
}

#[test]
fn past_timestamps_are_not_just_now() {
    assert_eq!(format_duration_since("2024-03-10T11:00:00Z", &now()), "1h ago");
    assert_eq!(format_duration_since("2023-03-10T12:00:00Z", &now()), "366d ago");
    assert_eq!(format_duration_since("2024-03-11T12:00:00Z", &now()), "just now");
}

#[test]
fn whole_seconds_round_toward_zero() {
    let a = UtcDateTime { day: 10, second: 100, nano: 500 };
    let b = UtcDateTime { day: 9, second: 50, nano: 0 };
    assert_eq!(elapsed_whole_seconds(&a, &b), 86450);
    assert_eq!(elapsed_whole_seconds(&b, &a), -86450);
    let c = UtcDateTime { day: 9, second: 50, nano: 999_999_999 };
    let d = UtcDateTime { day: 9, second: 51, nano: 0 };
    assert_eq!(elapsed_whole_seconds(&d, &c), 0);
    assert_eq!(elapsed_whole_seconds(&c, &d), 0);
}

#[test]
fn whole_seconds_agree_with_chrono() {
    let pairs = [
        ("2024-03-10T12:00:00Z", "2024-03-07T12:00:00.5Z"),
        ("2024-03-07T12:00:00.5Z", "2024-03-10T12:00:00Z"),
        ("2017-01-01T00:00:00Z", "2016-12-31T23:59:60.5Z"),
        ("2016-12-31T23:59:60.5Z", "2016-12-31T23:59:58Z"),
        ("2016-12-31T23:59:58Z", "2016-12-31T23:59:60.5Z"),
        ("2016-12-31T23:59:60.7Z", "2016-12-31T23:59:59.2Z"),
        ("2024-03-10T13:00:00+02:00", "1999-12-31T23:59:59.999Z"),
        ("0001-01-01T00:00:00Z", "9999-12-31T23:59:59Z"),
    ];
    for (later, earlier) in pairs {
        assert_eq!(own_seconds(later, earlier), chrono_seconds(later, earlier), "{} since {}", later, earlier);
    }
}
