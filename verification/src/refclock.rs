//! The reference clock: the system's wall clock in nanoseconds since the
//! Unix epoch. Only differences between its readings are ever used.
use std::time::{Duration, SystemTime, SystemTimeError};
use vstd::prelude::*;

verus! {

/// `std::time::SystemTime`, a moment of the system clock. Nothing inside
/// it is visible here.
#[verifier::external_type_specification]
#[verifier::external_body]
pub struct ExSystemTime(SystemTime);

/// `std::time::SystemTimeError`, the error of a clock that stands before
/// the moment it is compared with. Nothing inside it is visible here.
#[verifier::external_type_specification]
#[verifier::external_body]
pub struct ExSystemTimeError(SystemTimeError);

/// `SystemTime::now`: the system clock as it stands. Nothing is claimed of
/// the value, which differs from call to call.
pub assume_specification[ SystemTime::now ]() -> SystemTime;

/// `SystemTime::duration_since`, asked for the time since `UNIX_EPOCH`:
/// an error when the clock stands before the epoch. Nothing is claimed of
/// the duration.
#[verifier::external_body]
fn since_epoch(now: &SystemTime) -> Result<Duration, SystemTimeError> {
    now.duration_since(SystemTime::UNIX_EPOCH)
}

/// `Duration::as_nanos`: the whole duration in nanoseconds. Nothing is
/// claimed of the number.
pub assume_specification[ Duration::as_nanos ](d: &Duration) -> u128;

/// The reading that stands for a time since the epoch: its nanoseconds,
/// cut to their low 64 bits, or 0 when the clock could not tell.
pub open spec fn reading_of(since_epoch: Option<u128>) -> u64 {
    match since_epoch {
        Some(nanos) => (nanos % 0x1_0000_0000_0000_0000) as u64,
        None => 0,
    }
}

/// Turns what the system clock told into a reading. A clock that could
/// not tell reads 0, and a 0 is never used to calibrate.
pub fn reading(since_epoch: Option<u128>) -> (ns: u64)
    ensures
        ns == reading_of(since_epoch),
{
    match since_epoch {
        Some(nanos) => (nanos % 0x1_0000_0000_0000_0000u128) as u64,
        None => 0,
    }
}

/// Reads the reference clock: nanoseconds since the Unix epoch, or 0 when
/// the system clock stands before the epoch.
pub fn read_sys_nanos() -> (ns: u64) {
    let now = SystemTime::now();
    match since_epoch(&now) {
        Ok(elapsed) => reading(Some(elapsed.as_nanos())),
        Err(_) => reading(None),
    }
}

} // verus!
