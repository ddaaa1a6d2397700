//! The wall clock and the range of instants that a timestamp can name.

use chrono::TimeZone;
use vstd::prelude::*;

verus! {

/// Whether chrono can represent the instant `millis` milliseconds after the
/// Unix epoch as a UTC date and time.
pub uninterp spec fn representable_millis(millis: i64) -> bool;

/// The current time in milliseconds since the Unix epoch, as
/// `chrono::Utc::now().timestamp_millis()` gives it. Nothing is claimed of
/// the value: two calls may give any two numbers.
#[verifier::external_body]
pub(crate) fn now_millis() -> (now: i64) {
    chrono::Utc::now().timestamp_millis()
}

/// Asks chrono's `TimeZone::timestamp_millis_opt` on `Utc` whether `millis`
/// names a single instant. The answer depends on `millis` alone and is what
/// [`representable_millis`] stands for.
#[verifier::external_body]
pub(crate) fn is_representable(millis: i64) -> (ok: bool)
    ensures
        ok == representable_millis(millis),
{
    chrono::Utc.timestamp_millis_opt(millis).single().is_some()
}

/// The time to record for a per-peer header that carries `header_millis`,
/// given whether that number is `representable` and the current time `now`:
/// the header's own time where it names an instant, the current time
/// otherwise.
pub open spec fn header_time_of(header_millis: i64, representable: bool, now: i64) -> i64 {
    if representable {
        header_millis
    } else {
        now
    }
}

/// Chooses between a header's timestamp and the current time.
pub fn choose_header_time(header_millis: i64, representable: bool, now: i64) -> (t: i64)
    ensures
        t == header_time_of(header_millis, representable, now),
{
    if representable {
        header_millis
    } else {
        now
    }
}

/// The time to record for a per-peer header: `header_millis` where chrono can
/// represent it, `now` otherwise.
pub fn header_time(header_millis: i64, now: i64) -> (t: i64)
    ensures
        t == header_time_of(header_millis, representable_millis(header_millis), now),
{
    let ok = is_representable(header_millis);
    choose_header_time(header_millis, ok, now)
}

} // verus!
