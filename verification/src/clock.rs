//! The wall clock, which the machine reads for its random numbers.
//!
//! Nothing is known of a clock reading before it is made, so none of the
//! items here promises anything of its result.

use std::time::{Duration, SystemTime, SystemTimeError};
use vstd::prelude::*;

verus! {

/// `std::time::SystemTime`, a point in time; opaque here.
#[verifier::external_type_specification]
#[verifier::external_body]
pub struct ExSystemTime(SystemTime);

/// `std::time::SystemTimeError`, the answer for a point in time that lies
/// before the one it is measured from; opaque here.
#[verifier::external_type_specification]
#[verifier::external_body]
pub struct ExSystemTimeError(SystemTimeError);

/// `SystemTime::now` reads the clock. Trusted: it returns.
pub assume_specification[ SystemTime::now ]() -> (now: SystemTime)
;

/// `Duration::as_secs` gives the whole seconds of a duration. Trusted: it
/// returns.
pub assume_specification[ Duration::as_secs ](duration: &Duration) -> (seconds: u64)
;

/// The time from the Unix epoch to `time`, through
/// `SystemTime::duration_since`. Trusted: it returns; it is an error where
/// `time` lies before the epoch.
#[verifier::external_body]
fn since_epoch(time: &SystemTime) -> (elapsed: Result<Duration, SystemTimeError>) {
    time.duration_since(std::time::UNIX_EPOCH)
}

/// The whole seconds that have passed since the Unix epoch, by this
/// machine's clock. A clock that stands before the epoch reads as zero.
pub fn epoch_seconds() -> (seconds: u64) {
    let now = SystemTime::now();
    match since_epoch(&now) {
        Ok(elapsed) => elapsed.as_secs(),
        Err(_) => 0,
    }
}

} // verus!
