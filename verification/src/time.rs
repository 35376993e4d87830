//! Dates through `chrono`: which timestamps it can represent, their RFC 2822
//! and RFC 3339 notations, RFC 3339 parsing, and the current time.
use vstd::prelude::*;
use crate::data::Timestamp;
use chrono::TimeZone;

verus! {

/// `chrono::DateTime::<Utc>::from_timestamp(secs, nanos)` is `Some`: the
/// seconds are in chrono's range and the nanoseconds valid.
pub uninterp spec fn chrono_timestamp_valid(secs: i64, nanos: u32) -> bool;

/// `to_rfc2822` of the date at `(secs, nanos)`, when chrono can represent it.
pub uninterp spec fn chrono_rfc2822(secs: i64, nanos: u32) -> Option<Seq<char>>;

/// `to_rfc3339` of the date at `(secs, nanos)`, when chrono can represent it.
pub uninterp spec fn chrono_rfc3339(secs: i64, nanos: u32) -> Option<Seq<char>>;

/// `DateTime::parse_from_rfc3339(s)` converted to UTC, as its timestamp and
/// sub-second nanoseconds; `None` when chrono rejects `s`.
pub uninterp spec fn chrono_parse_rfc3339(s: Seq<char>) -> Option<(i64, u32)>;

/// `Utc.with_ymd_and_hms(..)` when it names exactly one date, as its
/// timestamp and sub-second nanoseconds.
pub uninterp spec fn chrono_utc_ymd_hms(year: i32, month: u32, day: u32, hour: u32, min: u32, sec: u32) -> Option<(i64, u32)>;

/// `Utc.with_ymd_and_hms(..).single()`: the date with that calendar date and
/// time of day in UTC, if it exists.
#[verifier::external_body]
pub(crate) fn utc_ymd_hms(year: i32, month: u32, day: u32, hour: u32, min: u32, sec: u32) -> (r: Option<(i64, u32)>)
    ensures
        r == chrono_utc_ymd_hms(year, month, day, hour, min, sec),
        r matches Some((secs, nanos)) ==> chrono_timestamp_valid(secs, nanos),
{
    match chrono::Utc.with_ymd_and_hms(year, month, day, hour, min, sec).single() {
        Some(d) => Some((d.timestamp(), d.timestamp_subsec_nanos())),
        None => None,
    }
}

/// The date `seconds` seconds before `(secs, nanos)`, as chrono computes it
/// (`TimeDelta::try_seconds`, then `DateTime::checked_sub_signed`); `None`
/// when chrono cannot represent the span or the result.
pub uninterp spec fn chrono_sub_seconds(secs: i64, nanos: u32, seconds: i64) -> Option<(i64, u32)>;

/// `t` minus `seconds` seconds, through chrono.
#[verifier::external_body]
pub(crate) fn sub_seconds(t: &Timestamp, seconds: i64) -> (r: Option<(i64, u32)>)
    ensures
        r == chrono_sub_seconds(t.secs, t.nanos, seconds),
{
    match (chrono::DateTime::from_timestamp(t.secs, t.nanos), chrono::TimeDelta::try_seconds(seconds)) {
        (Some(d), Some(delta)) => match d.checked_sub_signed(delta) {
            Some(c) => Some((c.timestamp(), c.timestamp_subsec_nanos())),
            None => None,
        },
        _ => None,
    }
}

/// Whether `chrono::DateTime::from_timestamp(secs, nanos)` is `Some`.
#[verifier::external_body]
pub(crate) fn timestamp_valid(secs: i64, nanos: u32) -> (b: bool)
    ensures
        b == chrono_timestamp_valid(secs, nanos),
{
    chrono::DateTime::from_timestamp(secs, nanos).is_some()
}

/// The dates whose UTC year lies in 0..=9999, the years RFC 2822 can write:
/// from 0000-01-01T00:00:00Z up to, not including, 10000-01-01T00:00:00Z.
pub open spec fn rfc2822_year_range(t: Timestamp) -> bool {
    -62167219200 <= t.secs < 253402300800
}

/// `DateTime::to_rfc2822` of the date at `t` (chrono panics outside the
/// years 0..=9999, which `requires` leaves out).
#[verifier::external_body]
fn rfc2822_raw(t: &Timestamp) -> (r: Option<String>)
    requires
        rfc2822_year_range(*t),
    ensures
        r is Some <==> chrono_timestamp_valid(t.secs, t.nanos),
        crate::data::opt_view(r) == chrono_rfc2822(t.secs, t.nanos),
{
    match chrono::DateTime::from_timestamp(t.secs, t.nanos) {
        Some(d) => Some(d.to_rfc2822()),
        None => None,
    }
}

/// A date RFC 2822 can write: one chrono represents, in the years 0..=9999.
pub open spec fn rfc2822_writable(t: Timestamp) -> bool {
    rfc2822_year_range(t) && chrono_timestamp_valid(t.secs, t.nanos)
}

/// The RFC 2822 notation of a date, or `None` when it has none.
pub fn rfc2822(t: &Timestamp) -> (r: Option<String>)
    ensures
        r is Some <==> rfc2822_writable(*t),
        r is Some ==> crate::data::opt_view(r) == chrono_rfc2822(t.secs, t.nanos),
{
    if -62167219200 <= t.secs && t.secs < 253402300800 {
        rfc2822_raw(t)
    } else {
        None
    }
}

/// `DateTime::to_rfc3339` of the date at `t`.
#[verifier::external_body]
pub(crate) fn rfc3339(t: &Timestamp) -> (r: Option<String>)
    ensures
        r is Some <==> chrono_timestamp_valid(t.secs, t.nanos),
        crate::data::opt_view(r) == chrono_rfc3339(t.secs, t.nanos),
{
    match chrono::DateTime::from_timestamp(t.secs, t.nanos) {
        Some(d) => Some(d.to_rfc3339()),
        None => None,
    }
}

/// `DateTime::parse_from_rfc3339`, converted to UTC.
#[verifier::external_body]
fn parse_rfc3339_raw(s: &str) -> (r: Option<(i64, u32)>)
    ensures
        r == chrono_parse_rfc3339(s@),
{
    match chrono::DateTime::parse_from_rfc3339(s) {
        Ok(d) => Some((d.timestamp(), d.timestamp_subsec_nanos())),
        Err(_) => None,
    }
}

/// The current time, `chrono::Utc::now()`: a date chrono can represent.
#[verifier::external_body]
pub(crate) fn utc_now() -> (t: Timestamp)
    ensures
        chrono_timestamp_valid(t.secs, t.nanos),
{
    let d = chrono::Utc::now();
    Timestamp { secs: d.timestamp(), nanos: d.timestamp_subsec_nanos() }
}

/// The date at `secs` seconds (and `nanos` nanoseconds) after the epoch, when
/// chrono can represent it.
pub fn from_unix(secs: i64, nanos: u32) -> (r: Option<Timestamp>)
    ensures
        r is Some <==> chrono_timestamp_valid(secs, nanos),
        r matches Some(t) ==> t.secs == secs && t.nanos == nanos,
{
    if timestamp_valid(secs, nanos) {
        Some(Timestamp::new(secs, nanos))
    } else {
        None
    }
}

/// Parses an RFC 3339 date (any offset) into a UTC timestamp.
pub fn parse_rfc3339(s: &str) -> (r: Option<Timestamp>)
    ensures
        match chrono_parse_rfc3339(s@) {
            Some((secs, nanos)) => r == Some(Timestamp { secs, nanos }),
            None => r is None,
        },
{
    match parse_rfc3339_raw(s) {
        Some((secs, nanos)) => Some(Timestamp::new(secs, nanos)),
        None => None,
    }
}

} // verus!
