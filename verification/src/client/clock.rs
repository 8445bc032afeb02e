//! Message identifiers taken from the clock.

use std::time::Duration;
use std::time::SystemTime;
use std::time::SystemTimeError;
use vstd::prelude::*;

verus! {

/// A point in time of the system clock.
#[verifier::external_type_specification]
#[verifier::external_body]
pub struct ExSystemTime(SystemTime);

/// The error of a clock that stands before the point it is compared to.
#[verifier::external_type_specification]
#[verifier::external_body]
pub struct ExSystemTimeError(SystemTimeError);

/// `SystemTime::now`: the time that the system clock shows.
#[verifier::external_body]
fn now() -> SystemTime {
    SystemTime::now()
}

/// `SystemTime::duration_since` with the Unix epoch: the time that has passed
/// since the epoch, or an error where `time` lies before it.
#[verifier::external_body]
fn since_epoch(time: &SystemTime) -> Result<Duration, SystemTimeError> {
    time.duration_since(std::time::UNIX_EPOCH)
}

/// `Duration::as_nanos`: the whole duration in nanoseconds.
#[verifier::external_body]
fn as_nanos(elapsed: &Duration) -> u128 {
    elapsed.as_nanos()
}

/// The message identifier for a time given in nanoseconds since the Unix
/// epoch: its low 64 bits.
pub fn message_id_at(nanos: u128) -> (id: i64)
    ensures
        id == nanos as i64,
{
    #[verifier::truncate]
    (nanos as i64)
}

/// Generates a message identifier from the current time: the nanoseconds
/// since the Unix epoch, truncated to 64 bits. There is none while the clock
/// stands before the epoch.
pub fn generate_random_message_id() -> (id: Option<i64>) {
    let time = now();
    match since_epoch(&time) {
        Ok(elapsed) => Some(message_id_at(as_nanos(&elapsed))),
        Err(_) => None,
    }
}

} // verus!
