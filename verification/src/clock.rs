//! The two places where the library touches the host calendar, both through
//! chrono: sampling the current instant, and parsing a due-date text under a
//! configured format. Everything downstream of these calls is verified
//! against the contracts stated here.

use vstd::prelude::*;
use chrono::{Datelike, Timelike};
use crate::weekly::LocalInstant;

verus! {

/// What `chrono::NaiveDateTime::parse_from_str` followed by
/// `and_utc().timestamp()` returns for a given text and format: `None` when
/// the text does not match the format, otherwise the parsed instant in
/// seconds since the epoch. The parse reads only its two arguments, so the
/// result is a function of them alone.
pub uninterp spec fn due_parse(s: Seq<char>, fmt: Seq<char>) -> Option<i64>;

/// Relies on chrono::Local::now and its calendar decomposition:
/// Weekday::num_days_from_monday is 0..=6, Timelike::num_seconds_from_midnight
/// is 0..=86399 (hour, minute and second recombined), and every timestamp
/// chrono can represent (years within about +/-262000 of the epoch) lies
/// well within 10^13 seconds of it.
#[verifier::external_body]
pub fn local_now() -> (r: LocalInstant)
    ensures
        r.wf(),
{
    let now = chrono::Local::now();
    LocalInstant {
        ts: now.timestamp(),
        weekday: now.weekday().num_days_from_monday() as u8,
        secs_of_day: now.time().num_seconds_from_midnight(),
    }
}

/// Relies on chrono::NaiveDateTime::parse_from_str, a pure function of the
/// text and the format, and on DateTime::timestamp, whose value for every
/// representable date (years within about +/-262000 of the epoch) lies well
/// within 10^13 seconds of it.
#[verifier::external_body]
pub fn parse_due_date(s: &str, fmt: &str) -> (r: Option<i64>)
    ensures
        r == due_parse(s@, fmt@),
        r matches Some(ts) ==> -10_000_000_000_000 <= ts <= 10_000_000_000_000,
{
    match chrono::NaiveDateTime::parse_from_str(s, fmt) {
        Ok(dt) => Some(dt.and_utc().timestamp()),
        Err(_) => None,
    }
}

} // verus!
