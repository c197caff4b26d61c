//! Wall-clock helpers: the Unix time and a monotonic process clock.

use std::time::{Duration, Instant, SystemTime, SystemTimeError, UNIX_EPOCH};
use vstd::prelude::*;

verus! {

#[verifier::external_type_specification]
#[verifier::external_body]
pub struct ExSystemTime(SystemTime);

#[verifier::external_type_specification]
#[verifier::external_body]
pub struct ExSystemTimeError(SystemTimeError);

#[verifier::external_type_specification]
#[verifier::external_body]
pub struct ExInstant(Instant);

/// `SystemTime::now`: the current wall-clock time. Nothing is promised of
/// the value: it is whatever the system clock reads.
#[verifier::external_body]
fn system_now() -> SystemTime {
    SystemTime::now()
}

/// `SystemTime::duration_since(UNIX_EPOCH)`: the time elapsed since the
/// Unix epoch, or an error when the clock reads an earlier time. Which of
/// the two comes back depends on the clock and is not stated.
#[verifier::external_body]
fn since_unix_epoch(t: &SystemTime) -> Result<Duration, SystemTimeError> {
    t.duration_since(UNIX_EPOCH)
}

/// `Duration::as_secs`: the whole seconds of a duration (unstated here, as
/// `Duration` is opaque to the proofs).
#[verifier::external_body]
fn duration_secs(d: &Duration) -> u64 {
    d.as_secs()
}

/// `Instant::now`: a reading of the monotonic clock.
#[verifier::external_body]
pub(crate) fn instant_now() -> Instant {
    Instant::now()
}

/// `Instant::elapsed`: the time since `start` on the monotonic clock; it
/// depends on the clock and is not stated.
#[verifier::external_body]
fn instant_elapsed(start: &Instant) -> Duration {
    start.elapsed()
}

/// The whole seconds elapsed since `start` on the monotonic clock.
pub fn elapsed_secs(start: &Instant) -> u64 {
    let d = instant_elapsed(start);
    duration_secs(&d)
}

/// The clock's reading in whole seconds since the Unix epoch; `None`
/// when the clock reads a time before the epoch. The reading is whatever
/// the clock shows.
fn epoch_reading() -> Option<u64> {
    let now = system_now();
    match since_unix_epoch(&now) {
        Ok(d) => Some(duration_secs(&d)),
        Err(_) => None,
    }
}

/// Wall-clock helpers.
pub struct Time;

/// A reading of seconds since the epoch as an `i64` (cast as `as` casts),
/// zero for a reading before the epoch.
pub open spec fn secs_or_zero_spec(s: Option<u64>) -> i64 {
    match s {
        Some(x) => x as i64,
        None => 0,
    }
}

impl Time {
    /// A clock reading as seconds: the whole seconds since the epoch (cast
    /// to `i64`), clamped to zero when the clock reads before the epoch.
    pub fn secs_or_zero(s: Option<u64>) -> (r: i64)
        ensures
            r == secs_or_zero_spec(s),
    {
        match s {
            Some(x) => x as i64,
            None => 0,
        }
    }

    /// Seconds since the Unix epoch, zero when the clock reads a time
    /// before the epoch: [`Time::secs_or_zero`] of the clock's reading.
    pub fn now_secs() -> i64 {
        Time::secs_or_zero(epoch_reading())
    }
}

} // verus!
