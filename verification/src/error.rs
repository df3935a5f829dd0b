//! What can go wrong before and during a search.

use vstd::prelude::*;

verus! {

/// Why a search ended without a result.
#[derive(Clone, Copy, Debug, PartialEq, Eq)]
pub enum MiningError {
    /// A matching hash was found, but only after the time allowed.
    Expired,
    /// The wall clock could not be read as a time since the Unix epoch.
    ClockFailure,
    /// Every 64-bit nonce was tried and none matched.
    NonceSpaceExhausted,
}

/// Why the command-line arguments were refused.
#[derive(Clone, Copy, Debug, PartialEq, Eq)]
pub enum ArgumentError {
    /// The data or the pattern is missing.
    MissingArguments,
    /// The difficulty is not a non-negative decimal number that fits in `usize`.
    InvalidDifficulty,
}

} // verus!
