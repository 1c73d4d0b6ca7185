use std::time::{Duration, SystemTime, SystemTimeError};
use vstd::prelude::*;

verus! {

/// `std::time::SystemTime`, a moment on the clock. It is carried through and
/// never looked into.
#[verifier::external_type_specification]
#[verifier::external_body]
pub struct ExSystemTime(SystemTime);

/// `std::time::SystemTimeError`, what `SystemTime::duration_since` fails
/// with. It is never looked into.
#[verifier::external_type_specification]
#[verifier::external_body]
pub struct ExSystemTimeError(SystemTimeError);

/// `SystemTime::now` reads the clock; nothing is claimed of what it gives.
pub assume_specification[ SystemTime::now ]() -> (now: SystemTime);

/// `SystemTime::duration_since` gives the time that has gone by since an
/// earlier moment, or fails where the moment is not earlier; nothing is
/// claimed of which.
pub assume_specification[ SystemTime::duration_since ](
    time: &SystemTime,
    earlier: SystemTime,
) -> (elapsed: Result<Duration, SystemTimeError>);

/// `Duration::as_secs` gives the whole seconds of a duration; nothing is
/// claimed of their number.
pub assume_specification[ Duration::as_secs ](duration: &Duration) -> (secs: u64);

/// `std::time::UNIX_EPOCH`, the start of the Unix epoch. Nothing is claimed
/// of the value.
#[verifier::external_body]
fn unix_epoch() -> (epoch: SystemTime) {
    std::time::UNIX_EPOCH
}

/// The seed that a clock reading gives: the low 32 bits of the seconds since
/// the epoch, and zero where the clock stands before the epoch.
pub open spec fn seed_of(elapsed: Option<u64>) -> u32 {
    match elapsed {
        Some(secs) => (secs % 0x1_0000_0000) as u32,
        None => 0,
    }
}

/// Computes [`seed_of`].
pub fn seed_from_clock(elapsed: Option<u64>) -> (seed: u32)
    ensures
        seed == seed_of(elapsed),
{
    match elapsed {
        Some(secs) => (secs % 0x1_0000_0000) as u32,
        None => 0,
    }
}

/// A seed for a new world: what [`seed_from_clock`] makes of the clock's
/// reading. Two calls may differ.
pub fn generate_seed() -> (seed: u32) {
    let now = SystemTime::now();
    let elapsed: Option<u64> = match now.duration_since(unix_epoch()) {
        Ok(duration) => Some(duration.as_secs()),
        Err(_) => None,
    };
    seed_from_clock(elapsed)
}

} // verus!
