//! The wall clock, in whole seconds since the Unix epoch.

use std::time::{Duration, SystemTime, SystemTimeError, UNIX_EPOCH};
use vstd::prelude::*;

verus! {

/// A reading of the system clock.
#[verifier::external_type_specification]
#[verifier::external_body]
pub struct ExSystemTime(SystemTime);

/// What `SystemTime::duration_since` answers when the later time lies
/// before the earlier one.
#[verifier::external_type_specification]
#[verifier::external_body]
pub struct ExSystemTimeError(SystemTimeError);

/// `SystemTime::now` reads the system clock. Nothing is claimed of the
/// reading.
pub assume_specification[ SystemTime::now ]() -> (now: SystemTime)
;

/// `Duration::as_secs` gives the whole seconds of a duration. Nothing is
/// claimed of their number.
pub assume_specification[ Duration::as_secs ](d: &Duration) -> (secs: u64)
;

/// `SystemTime::duration_since`, asked for the distance of `time` from the
/// Unix epoch. It fails where `time` lies before the epoch.
#[verifier::external_body]
fn since_epoch(time: &SystemTime) -> (r: Result<Duration, SystemTimeError>) {
    time.duration_since(UNIX_EPOCH)
}

/// The seconds that have passed since the Unix epoch, or nothing where the
/// system clock stands before it.
pub(crate) fn unix_seconds() -> (r: Option<u64>) {
    let now = SystemTime::now();
    whole_seconds(since_epoch(&now))
}

/// The whole seconds of the time that has passed, where some has: there
/// are seconds to give exactly where the distance from the epoch could be
/// measured.
fn whole_seconds(elapsed: Result<Duration, SystemTimeError>) -> (r: Option<u64>)
    ensures
        r is Some <==> elapsed is Ok,
{
    match elapsed {
        Ok(elapsed) => Some(elapsed.as_secs()),
        Err(_) => None,
    }
}

} // verus!
