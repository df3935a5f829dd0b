use pow_miner::clock::Elapsed;
use pow_miner::error::MiningError;
use pow_miner::hash::compute_sha256_hash;
use pow_miner::miner::{
    compose_input, conclude, mine, mine_block, try_nonce, MiningRequest, MiningResult,
};

fn elapsed(nanos: u128) -> Elapsed {
    Elapsed { nanos }
}

#[test]
fn input_is_data_timestamp_nonce_without_separators() {
    assert_eq!(compose_input("abc", 1_700_000_000, 42), "abc170000000042");
    assert_eq!(compose_input("abc", 0, 0), "abc00");
    assert_eq!(compose_input("", 12, 34), "1234");
    assert_eq!(
        compose_input("x", u64::MAX, u64::MAX),
        "x1844674407370955161518446744073709551615"
    );
}

#[test]
fn attempt_that_meets_the_target_hands_back_its_hash() {
    let found = try_nonce("abc", "0", 2, 1_700_000_000, 823);
    assert_eq!(
        found,
        Some(String::from("009c68b87f33e199da62c5f40fb1504eeb7ac56810c5014aad891f3f983cd0ac"))
    );
}

#[test]
fn attempt_that_misses_the_target_hands_back_nothing() {
    // sha256("abc17000000000") starts with "e6".
    assert_eq!(try_nonce("abc", "0", 2, 1_700_000_000, 0), None);
    assert_eq!(try_nonce("abc", "0", 3, 1_700_000_000, 823), None);
}

#[test]
fn attempt_hash_is_the_hash_of_the_composed_input() {
    let found = try_nonce("abc", "0", 0, 0, 0);
    assert_eq!(
        found,
        Some(String::from("73e7c573eed45cfe7d62bb8aab941774bcf35a1cbbea4bd9f8c5ae8ce9e73b1c"))
    );
    let found = try_nonce("block", "df7", 1, 1_700_000_000, 7);
    assert_eq!(found, Some(compute_sha256_hash("block17000000007")));
}

#[test]
fn attempt_with_the_same_inputs_gives_the_same_hash() {
    let first = try_nonce("abc", "", 1, 1_700_000_000, 5);
    let second = try_nonce("abc", "", 1, 1_700_000_000, 5);
    assert!(first.is_some());
    assert_eq!(first, second);
}

#[test]
fn attempt_at_difficulty_zero_always_succeeds() {
    for nonce in 0..20u64 {
        assert!(try_nonce("abc", "0", 0, 1_700_000_000, nonce).is_some());
        assert!(try_nonce("abc", "zzz", 0, nonce, nonce).is_some());
    }
}

#[test]
fn attempt_with_a_target_longer_than_a_hash_never_succeeds() {
    for nonce in 0..20u64 {
        assert!(try_nonce("abc", "0", 65, 1_700_000_000, nonce).is_none());
    }
    assert!(try_nonce("abc", "0", usize::MAX, 1_700_000_000, 823).is_none());
}

#[test]
fn match_within_the_time_allowed_is_a_result() {
    let outcome = conclude(1_700_000_000, 823, String::from("009c"), elapsed(1_500_000));
    assert_eq!(
        outcome,
        Ok(MiningResult {
            timestamp: 1_700_000_000,
            nonce: 823,
            hash_hex: String::from("009c"),
            elapsed: elapsed(1_500_000),
        })
    );
}

#[test]
fn match_after_more_than_ten_seconds_is_expired() {
    let outcome = conclude(1_700_000_000, 823, String::from("009c"), elapsed(10_000_000_001));
    assert_eq!(outcome, Err(MiningError::Expired));
    let outcome = conclude(1, 2, String::from("00"), elapsed(3_600_000_000_000));
    assert_eq!(outcome, Err(MiningError::Expired));
    let outcome = conclude(1, 2, String::from("00"), elapsed(u128::MAX));
    assert_eq!(outcome, Err(MiningError::Expired));
}

#[test]
fn match_after_exactly_ten_seconds_is_still_a_result() {
    let outcome = conclude(1, 2, String::from("00"), elapsed(10_000_000_000));
    assert!(outcome.is_ok());
    let outcome = conclude(1, 2, String::from("00"), elapsed(0));
    assert!(outcome.is_ok());
}

#[test]
fn mining_abc_with_two_zeros() {
    let found = mine_block("abc", "0", 2).expect("a match within ten seconds");
    assert_eq!(found.hash_hex.len(), 64);
    assert!(found.hash_hex.starts_with("00"));
    assert!(found.elapsed.as_millis() < 10_000);
    assert!(!found.elapsed.is_expired());
    let input = format!("abc{}{}", found.timestamp, found.nonce);
    assert_eq!(found.hash_hex, compute_sha256_hash(&input));
    assert!(found.timestamp > 1_600_000_000);
}

#[test]
fn mining_at_difficulty_zero_returns_on_the_first_attempt() {
    let found = mine_block("abc", "0", 0).expect("a match on the first attempt");
    assert_eq!(found.nonce, 0);
    assert_eq!(found.hash_hex.len(), 64);
    assert!(found.elapsed.as_millis() < 1_000);
    let input = format!("abc{}0", found.timestamp);
    assert_eq!(found.hash_hex, compute_sha256_hash(&input));
}

#[test]
fn mining_with_an_empty_pattern_returns_on_the_first_attempt() {
    let found = mine_block("abc", "", 3).expect("a match on the first attempt");
    assert_eq!(found.nonce, 0);
}

#[test]
fn mining_result_starts_with_the_repeated_pattern() {
    for (pattern, difficulty) in [("a", 1usize), ("0", 1), ("f", 2), ("1", 3)] {
        let found = mine_block("data", pattern, difficulty).expect("a match within ten seconds");
        assert_eq!(found.hash_hex.len(), 64);
        assert_eq!(&found.hash_hex[..difficulty], pattern.repeat(difficulty).as_str());
        let input = format!("data{}{}", found.timestamp, found.nonce);
        assert_eq!(found.hash_hex, compute_sha256_hash(&input));
    }
}

#[test]
fn mining_a_request() {
    let request =
        MiningRequest { data: String::from("abc"), pattern: String::from("0"), difficulty: 1 };
    let found = mine(&request).expect("a match within ten seconds");
    assert!(found.hash_hex.starts_with("0"));
    let input = format!("abc{}{}", found.timestamp, found.nonce);
    assert_eq!(found.hash_hex, compute_sha256_hash(&input));
}
