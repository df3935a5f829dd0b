//! The two clocks of the miner: the wall clock, whose seconds are the
//! timestamp that is hashed, and the monotonic clock, which measures how long
//! a search has taken.

use std::time::{Duration, Instant, SystemTime, SystemTimeError};
use vstd::prelude::*;

use crate::error::MiningError;

verus! {

/// `std::time::SystemTime`, a reading of the wall clock. Nothing of what it
/// holds is visible here.
#[verifier::external_type_specification]
#[verifier::external_body]
pub struct ExSystemTime(SystemTime);

/// `std::time::SystemTimeError`, the error of `SystemTime::duration_since`.
/// Nothing of what it holds is visible here.
#[verifier::external_type_specification]
#[verifier::external_body]
pub struct ExSystemTimeError(SystemTimeError);

/// `std::time::Instant`, a reading of the monotonic clock. Nothing of what it
/// holds is visible here.
#[verifier::external_type_specification]
#[verifier::external_body]
pub struct ExInstant(Instant);

/// `SystemTime::now` reads the wall clock. Nothing is claimed of the reading.
pub assume_specification[ SystemTime::now ]() -> (now: SystemTime);

/// `SystemTime::duration_since` gives the time that lies between `earlier`
/// and `later`, or an error when `earlier` is in fact the later of the two.
/// Nothing is claimed of which comes back, nor of the duration.
pub assume_specification[ SystemTime::duration_since ](
    later: &SystemTime,
    earlier: SystemTime,
) -> (between: Result<Duration, SystemTimeError>);

/// `Instant::now` reads the monotonic clock. Nothing is claimed of the
/// reading.
pub assume_specification[ Instant::now ]() -> (now: Instant);

/// `Instant::elapsed` gives the time that has passed since the reading was
/// taken. Nothing is claimed of the duration.
pub assume_specification[ Instant::elapsed ](start: &Instant) -> (passed: Duration);

/// `Duration::as_secs` gives the whole seconds of a duration. Nothing is
/// claimed of the number.
pub assume_specification[ Duration::as_secs ](duration: &Duration) -> (secs: u64);

/// `Duration::as_nanos` gives a duration in nanoseconds. Nothing is claimed
/// of the number.
pub assume_specification[ Duration::as_nanos ](duration: &Duration) -> (nanos: u128);

/// Hands out the constant `std::time::UNIX_EPOCH`, the wall-clock reading of
/// 1970-01-01 00:00:00 UTC. Nothing is claimed of it.
#[verifier::external_body]
fn unix_epoch() -> (epoch: SystemTime) {
    std::time::UNIX_EPOCH
}

/// A search that takes longer than this many nanoseconds has expired: ten
/// seconds.
pub const EXPIRATION_NANOS: u128 = 10_000_000_000;

/// Nanoseconds in a millisecond.
pub const NANOS_PER_MILLI: u128 = 1_000_000;

/// Time that a search has taken, in nanoseconds.
#[derive(Clone, Copy, Debug, PartialEq, Eq)]
pub struct Elapsed {
    pub nanos: u128,
}

impl Elapsed {
    /// Whether this is longer than the time a search is allowed.
    pub open spec fn expired(self) -> bool {
        self.nanos > EXPIRATION_NANOS
    }

    /// This time in whole milliseconds, rounded down.
    pub open spec fn millis(self) -> nat {
        (self.nanos / NANOS_PER_MILLI) as nat
    }

    /// Time that has passed since `start`.
    pub(crate) fn since(start: &Instant) -> Elapsed {
        Elapsed { nanos: start.elapsed().as_nanos() }
    }

    /// Whether this is longer than the time a search is allowed. Exactly ten
    /// seconds is still in time.
    pub fn is_expired(&self) -> (late: bool)
        ensures
            late == self.expired(),
    {
        self.nanos > EXPIRATION_NANOS
    }

    /// This time in whole milliseconds, rounded down.
    pub fn as_millis(&self) -> (millis: u128)
        ensures
            millis == self.millis(),
    {
        self.nanos / NANOS_PER_MILLI
    }
}

/// Current wall-clock time in whole seconds since the Unix epoch.
///
/// Fails with `ClockFailure` when the system clock is set before the epoch.
/// The seconds are whatever the clock says: nothing is promised of them.
pub fn get_current_timestamp() -> (now: Result<u64, MiningError>)
    ensures
        now matches Err(error) ==> error == MiningError::ClockFailure,
{
    match SystemTime::now().duration_since(unix_epoch()) {
        Ok(since_epoch) => Ok(since_epoch.as_secs()),
        Err(_) => Err(MiningError::ClockFailure),
    }
}

} // verus!
