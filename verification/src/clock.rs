//! The system clock, read in milliseconds since the Unix epoch.

use std::time::{Duration, SystemTime, SystemTimeError};
use vstd::prelude::*;

verus! {

/// `std::time::SystemTime`: a time as the clock gives it. Nothing is known
/// of a value of it.
#[verifier::external_type_specification]
#[verifier::external_body]
pub struct ExSystemTime(SystemTime);

/// `std::time::SystemTimeError`: what subtracting a later time gives.
/// Nothing is known of a value of it.
#[verifier::external_type_specification]
#[verifier::external_body]
pub struct ExSystemTimeError(SystemTimeError);

/// Calls `SystemTime::now`. Nothing is claimed of the time it gives.
#[verifier::external_body]
fn system_now() -> SystemTime {
    SystemTime::now()
}

/// Calls `SystemTime::duration_since` with the Unix epoch as the earlier
/// time. Nothing is claimed of the result.
#[verifier::external_body]
fn since_epoch(time: &SystemTime) -> Result<Duration, SystemTimeError> {
    time.duration_since(SystemTime::UNIX_EPOCH)
}

/// Calls `Duration::as_millis`. Nothing is claimed of the result.
#[verifier::external_body]
fn whole_millis(span: &Duration) -> u128 {
    span.as_millis()
}

/// Milliseconds since the Unix epoch by the system clock; nothing where the
/// clock stands before the epoch.
pub(crate) fn now_millis() -> Option<u128> {
    let now = system_now();
    match since_epoch(&now) {
        Ok(span) => Some(whole_millis(&span)),
        Err(_) => None,
    }
}

} // verus!
