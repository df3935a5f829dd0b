//! The search itself: one attempt per nonce, each with a fresh timestamp,
//! until a hash meets the target.

use std::time::Instant;
use vstd::prelude::*;

use crate::clock::{get_current_timestamp, Elapsed};
use crate::error::MiningError;
use crate::hash::{compute_sha256_hash, sha256_hex, HASH_HEX_LEN};
use crate::text::{
    decimal, lemma_target_prefix_len, push_decimal, starts_with_repeated, target_prefix,
};

verus! {

/// What is to be mined: the data, and the target given as a pattern and the
/// number of times it is repeated.
#[derive(Clone, Debug, PartialEq, Eq)]
pub struct MiningRequest {
    /// The text that every attempt starts with.
    pub data: String,
    /// The text that the hash must start with, once for each unit of
    /// difficulty.
    pub pattern: String,
    /// How many times the pattern is repeated in the target prefix.
    pub difficulty: usize,
}

/// A successful search.
#[derive(Clone, Debug, PartialEq, Eq)]
pub struct MiningResult {
    /// Wall-clock seconds since the Unix epoch, as hashed.
    pub timestamp: u64,
    /// The nonce, as hashed.
    pub nonce: u64,
    /// The hash that met the target, in lowercase hexadecimal.
    pub hash_hex: String,
    /// Time from the start of the search to the match.
    pub elapsed: Elapsed,
}

/// The text that is hashed in one attempt: the data, then the timestamp and
/// the nonce in decimal, with nothing in between.
pub open spec fn attempt_input(data: Seq<char>, timestamp: u64, nonce: u64) -> Seq<char> {
    data + decimal(timestamp as nat) + decimal(nonce as nat)
}

/// The hexadecimal hash of one attempt.
pub open spec fn attempt_hash(data: Seq<char>, timestamp: u64, nonce: u64) -> Seq<char> {
    sha256_hex(attempt_input(data, timestamp, nonce))
}

/// Whether a hash starts with the pattern repeated `difficulty` times.
pub open spec fn meets_target(hash_hex: Seq<char>, pattern: Seq<char>, difficulty: nat) -> bool {
    target_prefix(pattern, difficulty).is_prefix_of(hash_hex)
}

/// Whether the attempt with this timestamp and nonce meets the target.
pub open spec fn attempt_succeeds(
    data: Seq<char>,
    pattern: Seq<char>,
    difficulty: nat,
    timestamp: u64,
    nonce: u64,
) -> bool {
    meets_target(attempt_hash(data, timestamp, nonce), pattern, difficulty)
}

/// Whether the nonce fails to meet the target at some timestamp.
pub open spec fn nonce_can_fail(
    data: Seq<char>,
    pattern: Seq<char>,
    difficulty: nat,
    nonce: u64,
) -> bool {
    exists|timestamp: u64| !attempt_succeeds(data, pattern, difficulty, timestamp, nonce)
}

/// Whether every nonce below `nonce` fails to meet the target at some
/// timestamp. A search that has reached `nonce` has seen each of them fail.
pub open spec fn smaller_nonces_can_fail(
    data: Seq<char>,
    pattern: Seq<char>,
    difficulty: nat,
    nonce: u64,
) -> bool {
    forall|smaller: u64|
        smaller < nonce ==> #[trigger] nonce_can_fail(data, pattern, difficulty, smaller)
}

/// The hash of an attempt depends on the data, the timestamp and the nonce
/// alone: two attempts that agree on them have the same hash.
pub proof fn lemma_attempt_hash_is_reproducible(
    data: Seq<char>,
    timestamp: u64,
    nonce: u64,
    other_data: Seq<char>,
    other_timestamp: u64,
    other_nonce: u64,
)
    requires
        data == other_data,
        timestamp == other_timestamp,
        nonce == other_nonce,
    ensures
        attempt_input(data, timestamp, nonce) == attempt_input(
            other_data,
            other_timestamp,
            other_nonce,
        ),
        attempt_hash(data, timestamp, nonce) == attempt_hash(
            other_data,
            other_timestamp,
            other_nonce,
        ),
{
}

/// A hash meets the target exactly when its first `pattern.len() * difficulty`
/// characters are the pattern repeated `difficulty` times.
pub proof fn lemma_meets_target_by_characters(
    hash_hex: Seq<char>,
    pattern: Seq<char>,
    difficulty: nat,
)
    ensures
        meets_target(hash_hex, pattern, difficulty) <==> (pattern.len() * difficulty
            <= hash_hex.len() && hash_hex.subrange(0, (pattern.len() * difficulty) as int)
            == target_prefix(pattern, difficulty)),
{
    lemma_target_prefix_len(pattern, difficulty);
}

/// With difficulty zero, or with an empty pattern, the target prefix is empty
/// and every hash meets the target.
pub proof fn lemma_empty_target_always_met(hash_hex: Seq<char>, pattern: Seq<char>, difficulty: nat)
    requires
        difficulty == 0 || pattern.len() == 0,
    ensures
        target_prefix(pattern, difficulty).len() == 0,
        meets_target(hash_hex, pattern, difficulty),
{
    lemma_target_prefix_len(pattern, difficulty);
    assert(pattern.len() * difficulty == 0) by (nonlinear_arith)
        requires
            difficulty == 0 || pattern.len() == 0,
    ;
}

/// Builds the text that is hashed in one attempt.
pub fn compose_input(data: &str, timestamp: u64, nonce: u64) -> (input: String)
    ensures
        input@ == attempt_input(data@, timestamp, nonce),
{
    let mut input = data.to_owned();
    push_decimal(&mut input, timestamp);
    push_decimal(&mut input, nonce);
    input
}

/// Makes one attempt: hashes the data with the timestamp and the nonce, and
/// hands back the hash if it meets the target.
pub fn try_nonce(
    data: &str,
    pattern: &str,
    difficulty: usize,
    timestamp: u64,
    nonce: u64,
) -> (found: Option<String>)
    ensures
        found is Some <==> attempt_succeeds(data@, pattern@, difficulty as nat, timestamp, nonce),
        found matches Some(hash_hex) ==> hash_hex@ == attempt_hash(data@, timestamp, nonce)
            && hash_hex@.len() == HASH_HEX_LEN,
{
    let input = compose_input(data, timestamp, nonce);
    let hash_hex = compute_sha256_hash(input.as_str());
    if starts_with_repeated(hash_hex.as_str(), pattern, difficulty) {
        Some(hash_hex)
    } else {
        None
    }
}

/// Decides what becomes of a match, given the time the search took: a result
/// if it came within the time allowed, `Expired` if it came later.
pub fn conclude(
    timestamp: u64,
    nonce: u64,
    hash_hex: String,
    elapsed: Elapsed,
) -> (outcome: Result<MiningResult, MiningError>)
    ensures
        elapsed.expired() ==> outcome == Err::<MiningResult, MiningError>(MiningError::Expired),
        !elapsed.expired() ==> outcome == Ok::<MiningResult, MiningError>(
            (MiningResult { timestamp, nonce, hash_hex, elapsed }),
        ),
{
    if elapsed.is_expired() {
        Err(MiningError::Expired)
    } else {
        Ok(MiningResult { timestamp, nonce, hash_hex, elapsed })
    }
}

/// What holds of a search for `pattern` repeated `difficulty` times over
/// `data`, whatever the clocks said while it ran.
pub open spec fn search_outcome(
    data: Seq<char>,
    pattern: Seq<char>,
    difficulty: nat,
    outcome: Result<MiningResult, MiningError>,
) -> bool {
    match outcome {
        Ok(found) => {
            &&& found.hash_hex@ == attempt_hash(data, found.timestamp, found.nonce)
            &&& found.hash_hex@.len() == HASH_HEX_LEN
            &&& meets_target(found.hash_hex@, pattern, difficulty)
            &&& found.hash_hex@.subrange(0, (pattern.len() * difficulty) as int) == target_prefix(
                pattern,
                difficulty,
            )
            &&& !found.elapsed.expired()
            &&& smaller_nonces_can_fail(data, pattern, difficulty, found.nonce)
        },
        Err(MiningError::Expired) => exists|timestamp: u64, nonce: u64|
            #[trigger] attempt_succeeds(data, pattern, difficulty, timestamp, nonce)
                && smaller_nonces_can_fail(data, pattern, difficulty, nonce),
        Err(MiningError::ClockFailure) => true,
        Err(MiningError::NonceSpaceExhausted) => forall|nonce: u64| #[trigger]
            nonce_can_fail(data, pattern, difficulty, nonce),
    }
}

/// Whether a search ended on its first attempt: with the nonce zero, or
/// because a clock failed or the match came too late, but not for want of
/// nonces.
pub open spec fn ends_on_first_attempt(outcome: Result<MiningResult, MiningError>) -> bool {
    match outcome {
        Ok(found) => found.nonce == 0,
        Err(error) => !(error is NonceSpaceExhausted),
    }
}

/// Searches for a nonce whose hash starts with `pattern` repeated
/// `difficulty` times.
///
/// Nonces are tried from zero upwards, each with the wall-clock time of its
/// own attempt. The first match ends the search: it is the result if it came
/// within ten seconds of the start, and `Expired` otherwise. The search also
/// ends with `ClockFailure` when the wall clock cannot be read, and with
/// `NonceSpaceExhausted` when the last 64-bit nonce has been tried in vain:
/// the nonce never wraps around.
///
/// With difficulty zero, or an empty pattern, every hash meets the target, so
/// the search ends on its first attempt.
pub fn mine_block(data: &str, pattern: &str, difficulty: usize) -> (outcome: Result<
    MiningResult,
    MiningError,
>)
    ensures
        search_outcome(data@, pattern@, difficulty as nat, outcome),
        difficulty == 0 || pattern@.len() == 0 ==> ends_on_first_attempt(outcome),
{
    let start = Instant::now();
    let mut nonce: u64 = 0;
    loop
        invariant
            smaller_nonces_can_fail(data@, pattern@, difficulty as nat, nonce),
            difficulty == 0 || pattern@.len() == 0 ==> nonce == 0,
        decreases u64::MAX - nonce,
    {
        let timestamp: u64 = match get_current_timestamp() {
            Ok(seconds) => seconds,
            Err(_) => {
                return Err(MiningError::ClockFailure);
            },
        };
        match try_nonce(data, pattern, difficulty, timestamp, nonce) {
            Some(hash_hex) => {
                proof {
                    lemma_meets_target_by_characters(hash_hex@, pattern@, difficulty as nat);
                }
                return conclude(timestamp, nonce, hash_hex, Elapsed::since(&start));
            },
            None => {
                proof {
                    // An empty target is always met, so this attempt did not fail.
                    if difficulty == 0 || pattern@.len() == 0 {
                        lemma_empty_target_always_met(
                            attempt_hash(data@, timestamp, nonce),
                            pattern@,
                            difficulty as nat,
                        );
                    }
                }
                assert(nonce_can_fail(data@, pattern@, difficulty as nat, nonce));
                if nonce == u64::MAX {
                    return Err(MiningError::NonceSpaceExhausted);
                }
                nonce = nonce + 1;
            },
        }
    }
}

/// Runs the search that a request describes.
pub fn mine(request: &MiningRequest) -> (outcome: Result<MiningResult, MiningError>)
    ensures
        search_outcome(request.data@, request.pattern@, request.difficulty as nat, outcome),
        request.difficulty == 0 || request.pattern@.len() == 0 ==> ends_on_first_attempt(outcome),
{
    mine_block(request.data.as_str(), request.pattern.as_str(), request.difficulty)
}

} // verus!
