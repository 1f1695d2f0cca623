//! How long ago a timestamp was, in the coarsest whole unit: days, hours,
//! minutes, or "just now". Timestamps are RFC 3339 text, read with `chrono`.

use vstd::prelude::*;
use crate::text::{concat2, decimal, decimal_string, owned};
use vstd::arithmetic::div_mod::{lemma_div_by_multiple, lemma_div_is_ordered};

verus! {

/// A UTC date and time as `chrono::NaiveDateTime` holds it: the day (days
/// from January 1 of year 1, which is day 1), the second of that day, and
/// the nanosecond of that second, which is 1_000_000_000 or more during a
/// leap second.
#[derive(Debug, Clone, Copy, PartialEq, Eq, Structural)]
pub struct UtcDateTime {
    pub day: i32,
    pub second: u32,
    pub nano: u32,
}

/// The UTC date and time (day, second of the day, nanosecond) that
/// `chrono` reads from an RFC 3339 text, when it accepts the text.
pub uninterp spec fn rfc3339_datetime(s: Seq<char>) -> Option<(i32, u32, u32)>;

/// `chrono::DateTime::parse_from_rfc3339`, taken as the UTC date and time
/// (`DateTime::naive_utc`) and written out as plain values
/// (`Datelike::num_days_from_ce`, `Timelike::num_seconds_from_midnight`,
/// `Timelike::nanosecond`). The result is named, not described: it is
/// `rfc3339_datetime` of the text, a function of the text alone.
#[verifier::external_body]
fn parse_rfc3339(s: &str) -> (r: Option<UtcDateTime>)
    ensures
        match rfc3339_datetime(s@) {
            Some((day, second, nano)) => r == Some(UtcDateTime { day, second, nano }),
            None => r is None,
        },
{
    match chrono::DateTime::parse_from_rfc3339(s) {
        Ok(dt) => {
            let n = dt.naive_utc();
            Some(UtcDateTime {
                day: chrono::Datelike::num_days_from_ce(&n),
                second: chrono::Timelike::num_seconds_from_midnight(&n),
                nano: chrono::Timelike::nanosecond(&n),
            })
        },
        Err(_) => None,
    }
}

/// The extra second that `chrono` counts when one of the two times lies in
/// a leap second (`NaiveTime::signed_duration_since`).
pub open spec fn leap_adjust(later: UtcDateTime, earlier: UtcDateTime) -> int {
    if later.second > earlier.second && earlier.nano >= 1_000_000_000 {
        1
    } else if later.second < earlier.second && later.nano >= 1_000_000_000 {
        -1
    } else {
        0
    }
}

/// The nanoseconds from `earlier` to `later`, as
/// `NaiveDateTime::signed_duration_since` counts them: whole days of 86400
/// seconds, the difference of the seconds of the day (with the leap-second
/// adjustment) and the difference of the nanoseconds.
pub open spec fn elapsed_nanos(later: UtcDateTime, earlier: UtcDateTime) -> int {
    ((later.day - earlier.day) * 86400 + (later.second - earlier.second) + leap_adjust(later, earlier))
        * 1_000_000_000 + (later.nano - earlier.nano)
}

/// `a / b` rounded toward zero.
pub open spec fn trunc_div(a: int, b: int) -> int {
    if a >= 0 {
        a / b
    } else {
        -((-a) / b)
    }
}

/// The whole seconds from `earlier` to `later`, rounded toward zero, as
/// `TimeDelta::num_seconds` gives them.
pub open spec fn elapsed_seconds(later: UtcDateTime, earlier: UtcDateTime) -> int {
    trunc_div(elapsed_nanos(later, earlier), 1_000_000_000)
}

/// The whole seconds from `earlier` to `later`, rounded toward zero
/// (`later.signed_duration_since(earlier).num_seconds()` in `chrono`).
pub fn elapsed_whole_seconds(later: &UtcDateTime, earlier: &UtcDateTime) -> (r: i64)
    ensures
        r == elapsed_seconds(*later, *earlier),
{
    let adj: i128 = if later.second > earlier.second && earlier.nano >= 1_000_000_000 {
        1
    } else if later.second < earlier.second && later.nano >= 1_000_000_000 {
        -1
    } else {
        0
    };
    let days: i128 = later.day as i128 - earlier.day as i128;
    let secs: i128 = days * 86400 + (later.second as i128 - earlier.second as i128) + adj;
    let n: i128 = secs * 1_000_000_000 + (later.nano as i128 - earlier.nano as i128);
    assert(n == elapsed_nanos(*later, *earlier));
    let q: i128 = if n >= 0 {
        n / 1_000_000_000
    } else {
        -((-n) / 1_000_000_000)
    };
    proof {
        let bound: int = 400_000_000_000_005;
        assert(-bound * 1_000_000_000 <= n <= bound * 1_000_000_000);
        lemma_div_by_multiple(bound, 1_000_000_000);
        if n >= 0 {
            lemma_div_is_ordered(n as int, bound * 1_000_000_000, 1_000_000_000);
        } else {
            lemma_div_is_ordered(-n, bound * 1_000_000_000, 1_000_000_000);
        }
    }
    q as i64
}

/// The age text for a number of whole seconds: whole days when at least a
/// day, else whole hours when at least an hour, else whole minutes when at
/// least a minute, else "just now". Negative ages read "just now".
pub open spec fn age_text(secs: int) -> Seq<char> {
    if secs >= 86400 {
        decimal((secs / 86400) as nat) + "d ago"@
    } else if secs >= 3600 {
        decimal((secs / 3600) as nat) + "h ago"@
    } else if secs >= 60 {
        decimal((secs / 60) as nat) + "m ago"@
    } else {
        "just now"@
    }
}

/// What is shown for a timestamp at `now`: its age when `chrono` reads it
/// as RFC 3339, the text itself when it does not.
pub open spec fn duration_text(timestamp: Seq<char>, now: UtcDateTime) -> Seq<char> {
    match rfc3339_datetime(timestamp) {
        Some((day, second, nano)) => age_text(elapsed_seconds(now, UtcDateTime { day, second, nano })),
        None => timestamp,
    }
}

/// The age text for a number of whole seconds.
pub fn format_age(secs: i64) -> (r: String)
    ensures
        r@ == age_text(secs as int),
{
    if secs >= 86400 {
        concat2(decimal_string((secs / 86400) as u64).as_str(), "d ago")
    } else if secs >= 3600 {
        concat2(decimal_string((secs / 3600) as u64).as_str(), "h ago")
    } else if secs >= 60 {
        concat2(decimal_string((secs / 60) as u64).as_str(), "m ago")
    } else {
        owned("just now")
    }
}

/// How long before `now` (a UTC date and time) the RFC 3339 `timestamp`
/// was, or the timestamp itself when it is not RFC 3339.
pub fn format_duration_since(timestamp: &str, now: &UtcDateTime) -> (r: String)
    ensures
        r@ == duration_text(timestamp@, *now),
{
    match parse_rfc3339(timestamp) {
        Some(dt) => format_age(elapsed_whole_seconds(now, &dt)),
        None => owned(timestamp),
    }
}

/// When a device was last seen: the age of its last-seen time, or `never`.
pub fn last_seen_text(last_seen: Option<&str>, now: &UtcDateTime) -> (r: String)
    ensures
        r@ == match last_seen {
            Some(t) => duration_text(t@, *now),
            None => "never"@,
        },
{
    match last_seen {
        Some(t) => format_duration_since(t, now),
        None => owned("never"),
    }
}

} // verus!
