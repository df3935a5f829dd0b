use pow_miner::clock::{get_current_timestamp, Elapsed, EXPIRATION_NANOS};

#[test]
fn timestamp_is_seconds_since_the_epoch() {
    let now = get_current_timestamp().expect("a clock set after 1970");
    // Between September 2020 and the year 2286.
    assert!(now > 1_600_000_000);
    assert!(now < 10_000_000_000);
}

#[test]
fn timestamp_does_not_go_back_by_much() {
    let first = get_current_timestamp().expect("a clock set after 1970");
    let second = get_current_timestamp().expect("a clock set after 1970");
    assert!(second + 60 >= first);
}

#[test]
fn elapsed_in_whole_milliseconds() {
    assert_eq!(Elapsed { nanos: 0 }.as_millis(), 0);
    assert_eq!(Elapsed { nanos: 999_999 }.as_millis(), 0);
    assert_eq!(Elapsed { nanos: 1_000_000 }.as_millis(), 1);
    assert_eq!(Elapsed { nanos: 1_999_999 }.as_millis(), 1);
    assert_eq!(Elapsed { nanos: 10_000_000_000 }.as_millis(), 10_000);
    assert_eq!(Elapsed { nanos: 12_345_678_901 }.as_millis(), 12_345);
}

#[test]
fn expiration_is_ten_seconds() {
    assert_eq!(EXPIRATION_NANOS, 10_000_000_000);
}

#[test]
fn elapsed_expires_after_ten_seconds() {
    assert!(!Elapsed { nanos: 0 }.is_expired());
    assert!(!Elapsed { nanos: 9_999_999_999 }.is_expired());
    assert!(!Elapsed { nanos: 10_000_000_000 }.is_expired());
    assert!(Elapsed { nanos: 10_000_000_001 }.is_expired());
    assert!(Elapsed { nanos: 20_000_000_000 }.is_expired());
}
