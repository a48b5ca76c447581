//! The wall clock.

use std::time::{Duration, SystemTime, SystemTimeError, UNIX_EPOCH};
use vstd::prelude::*;

verus! {

#[verifier::external_type_specification]
#[verifier::external_body]
pub struct ExSystemTime(SystemTime);

#[verifier::external_type_specification]
#[verifier::external_body]
pub struct ExSystemTimeError(SystemTimeError);

/// The time that lies between the Unix epoch and `time`: what
/// `SystemTime::duration_since` gives for `time` and `UNIX_EPOCH`. `None`
/// where `time` is earlier than the epoch.
pub uninterp spec fn elapsed_since_epoch(time: SystemTime) -> Option<Duration>;

/// The whole milliseconds that a duration holds: what `Duration::as_millis`
/// gives for it.
pub uninterp spec fn whole_millis(duration: Duration) -> u128;

/// The whole milliseconds that lie between the Unix epoch and `time`; `None`
/// where `time` is earlier than the epoch.
pub open spec fn millis_after_epoch(time: SystemTime) -> Option<u128> {
    match elapsed_since_epoch(time) {
        Some(elapsed) => Some(whole_millis(elapsed)),
        None => None,
    }
}

/// `SystemTime::now` reads the system clock. Nothing is claimed of the
/// reading.
pub assume_specification[ SystemTime::now ]() -> (now: SystemTime)
;

/// `Duration::as_millis` gives the whole milliseconds that a duration holds,
/// a function of the duration alone.
pub assume_specification[ Duration::as_millis ](duration: &Duration) -> (millis: u128)
    ensures
        millis == whole_millis(*duration),
;

/// Calls `SystemTime::duration_since` on `time` with the constant
/// `std::time::UNIX_EPOCH`. Trusted: std documents that the call gives the
/// time elapsed since the earlier of the two, and an error exactly where the
/// second is the later one; the outcome is a function of `time` alone.
#[verifier::external_body]
fn since_unix_epoch(time: &SystemTime) -> (elapsed: Result<Duration, SystemTimeError>)
    ensures
        elapsed matches Ok(duration) ==> elapsed_since_epoch(*time) == Some(duration),
        elapsed is Err ==> elapsed_since_epoch(*time) is None,
{
    time.duration_since(UNIX_EPOCH)
}

/// The whole milliseconds from the Unix epoch to `time`; `None` where `time`
/// is earlier than the epoch.
pub fn millis_since_epoch(time: &SystemTime) -> (millis: Option<u128>)
    ensures
        millis == millis_after_epoch(*time),
{
    match since_unix_epoch(time) {
        Ok(elapsed) => Some(elapsed.as_millis()),
        Err(_) => None,
    }
}

/// The whole milliseconds from the Unix epoch to a reading of the system
/// clock; `None` where the clock reads a time before the epoch.
pub fn now_as_millis() -> (millis: Option<u128>)
    ensures
        exists|now: SystemTime| millis == millis_after_epoch(now),
{
    let now = SystemTime::now();
    millis_since_epoch(&now)
}

} // verus!
