//! The wall clock and a stopwatch, as the standard library gives them.

use vstd::prelude::*;
use std::time::{Duration, Instant, SystemTime, UNIX_EPOCH};

verus! {

/// `std::time::Instant`, of which nothing is known but that it is a type.
#[verifier::external_type_specification]
#[verifier::external_body]
pub struct ExInstant(Instant);

/// `std::time::SystemTime`, of which nothing is known but that it is a type.
#[verifier::external_type_specification]
#[verifier::external_body]
pub struct ExSystemTime(SystemTime);

/// Reads the wall clock with `SystemTime::now`. Nothing is claimed of the value.
#[verifier::external_body]
fn wall_clock() -> SystemTime {
    SystemTime::now()
}

/// The time between the epoch and `t`, as `SystemTime::duration_since` gives it, and nothing
/// where `t` lies before the epoch. Nothing is claimed of the value.
#[verifier::external_body]
fn since_epoch(t: &SystemTime) -> Option<Duration> {
    t.duration_since(UNIX_EPOCH).ok()
}

/// The whole milliseconds of `d`, as `Duration::as_millis` gives them. Nothing is claimed of
/// the value.
#[verifier::external_body]
fn whole_millis(d: &Duration) -> u128 {
    d.as_millis()
}

/// Starts a stopwatch with `Instant::now`.
#[verifier::external_body]
pub(crate) fn stopwatch() -> Instant {
    Instant::now()
}

/// The time since the stopwatch `start` was started, as `Instant::elapsed` gives it. Nothing
/// is claimed of the value.
#[verifier::external_body]
fn since_start(start: &Instant) -> Duration {
    start.elapsed()
}

/// The time stamp for a clock that stands `since` milliseconds after the epoch, or before the
/// epoch where `since` is nothing: zero before the epoch, and the largest time stamp where
/// the milliseconds do not fit.
pub open spec fn time_stamp(since: Option<u128>) -> i64 {
    match since {
        Some(ms) => if ms > i64::MAX as u128 {
            i64::MAX
        } else {
            ms as i64
        },
        None => 0,
    }
}

/// The time stamp for a clock that stands `since` milliseconds after the epoch.
pub fn time_stamp_of(since: Option<u128>) -> (r: i64)
    ensures
        r == time_stamp(since),
        r >= 0,
{
    match since {
        Some(ms) => {
            if ms > 9223372036854775807u128 {
                i64::MAX
            } else {
                ms as i64
            }
        },
        None => 0,
    }
}

/// The milliseconds between the epoch and now: zero where the clock stands before the epoch,
/// and the largest number where they do not fit. Whatever the clock says, the result is the
/// time stamp of some reading, and so never negative.
pub(crate) fn system_time_ms() -> (r: i64)
    ensures
        r >= 0,
        exists|since: Option<u128>| r == #[trigger] time_stamp(since),
{
    let now = wall_clock();
    let since = match since_epoch(&now) {
        Some(d) => Some(whole_millis(&d)),
        None => None,
    };
    time_stamp_of(since)
}

/// The milliseconds since the stopwatch `start` was started.
pub(crate) fn elapsed_ms(start: &Instant) -> u128 {
    let d = since_start(start);
    whole_millis(&d)
}

} // verus!
