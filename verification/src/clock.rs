//! Instants as milliseconds since the Unix epoch, in UTC.

use vstd::prelude::*;

verus! {

/// The first millisecond of the calendar, at the start of the year -262143.
pub const MIN_INSTANT: i64 = -8_334_601_228_800_000;

/// The last millisecond of the calendar, at the end of the year 262142.
pub const MAX_INSTANT: i64 = 8_210_266_876_799_999;

/// Whether the calendar reaches an instant.
pub open spec fn in_calendar(ms: i64) -> bool {
    MIN_INSTANT <= ms <= MAX_INSTANT
}

/// The instant at `ms`, or `now` where the calendar does not reach it.
pub open spec fn instant_or(ms: i64, now: i64) -> i64 {
    if in_calendar(ms) {
        ms
    } else {
        now
    }
}

/// `chrono::Utc.timestamp_millis_opt`, read back with `timestamp_millis`.
///
/// Trusted: an instant comes back as it went in, and there is one exactly where the calendar
/// reaches.
#[verifier::external_body]
fn calendar_instant(ms: i64) -> (r: Option<i64>)
    ensures
        r == (if in_calendar(ms) {
            Some(ms)
        } else {
            None::<i64>
        }),
{
    chrono::TimeZone::timestamp_millis_opt(&chrono::Utc, ms).single().map(|t| t.timestamp_millis())
}

/// `chrono::Utc::now`, in milliseconds. Nothing is claimed of a reading of the clock.
#[verifier::external_body]
pub(crate) fn utc_now() -> i64 {
    chrono::Utc::now().timestamp_millis()
}

/// Whether the calendar reaches an instant.
pub fn reaches(ms: i64) -> (r: bool)
    ensures
        r == in_calendar(ms),
{
    calendar_instant(ms).is_some()
}

/// When a record starts: the stamped instant, or `now` where the calendar does not reach it.
pub fn started_at(ms: i64, now: i64) -> (r: i64)
    ensures
        r == instant_or(ms, now),
{
    match calendar_instant(ms) {
        Some(instant) => instant,
        None => now,
    }
}

/// A stamp that the calendar reaches is kept to the millisecond; `now` stands in for any other. The
/// calendar reaches over a quarter of a million years to either side of the epoch, and no further.
pub proof fn stamps_in_the_calendar_are_kept(ms: i64, now: i64)
    ensures
        in_calendar(ms) <==> -8_334_601_228_800_000 <= ms <= 8_210_266_876_799_999,
        -8_334_601_228_800_000 <= ms <= 8_210_266_876_799_999 ==> instant_or(ms, now) == ms,
        ms < -8_334_601_228_800_000 || ms > 8_210_266_876_799_999 ==> instant_or(ms, now) == now,
{
}

} // verus!
