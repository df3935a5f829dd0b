//! A minimal proof-of-work miner.
//!
//! Given some data, the miner looks for a nonce such that the SHA-256 digest of
//! the data, the current time and the nonce, written as lowercase hexadecimal,
//! starts with a pattern repeated `difficulty` times.
//!
//! - [`miner`]: the search, one attempt after the other, and its outcome.
//! - [`hash`]: SHA-256 and the hexadecimal form of a digest.
//! - [`text`]: the target prefix, decimal numerals, prefix matching.
//! - [`clock`]: the wall clock and the time a search has taken.
//! - [`args`]: a request read from command-line arguments.
//! - [`error`]: what can go wrong.

pub mod args;
pub mod clock;
pub mod error;
pub mod hash;
pub mod miner;
pub mod text;
