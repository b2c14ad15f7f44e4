//! Wall-clock time, in microseconds since the Unix epoch.
//!
//! The clock is read without any path that panics: a system clock that reads
//! before the epoch counts as the epoch itself, and one beyond what an `i64`
//! of microseconds holds counts as `i64::MAX`.
use vstd::prelude::*;
use std::time::{Duration, SystemTime, UNIX_EPOCH};

verus! {

/// The system clock's time point (`std::time::SystemTime`).
#[verifier::external_type_specification]
#[verifier::external_body]
pub struct ExSystemTime(SystemTime);

/// `SystemTime::now`: the system clock's current reading. Nothing is stated
/// of it; it depends on the machine and the moment.
#[verifier::external_body]
fn system_now() -> SystemTime {
    SystemTime::now()
}

/// `SystemTime::duration_since` the Unix epoch: the elapsed time, or `None`
/// when `t` is earlier than the epoch. Nothing is stated of the duration (the
/// time point is opaque here).
#[verifier::external_body]
fn since_epoch(t: &SystemTime) -> Option<Duration> {
    t.duration_since(UNIX_EPOCH).ok()
}

/// `Duration::as_micros`: the whole microseconds of a duration. Nothing is
/// stated of it (the duration is opaque here).
#[verifier::external_body]
fn whole_micros(d: &Duration) -> u128 {
    d.as_micros()
}

/// The current time in microseconds since the Unix epoch: 0 when the system
/// clock reads before the epoch, `i64::MAX` when it reads beyond what that
/// holds. Two calls may return any two such values.
pub(crate) fn now_micros() -> (t: i64)
    ensures
        t >= 0,
{
    let now = system_now();
    match since_epoch(&now) {
        Some(d) => {
            let us = whole_micros(&d);
            if us > i64::MAX as u128 {
                i64::MAX
            } else {
                us as i64
            }
        },
        None => 0,
    }
}

} // verus!
