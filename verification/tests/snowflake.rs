use omnidisc::snowflake::{Snowflake, SnowflakeGenerator};

/// Draws the next id, trying again when the sequence of the current
/// millisecond is used up.
fn next_id(g: &mut SnowflakeGenerator) -> Snowflake {
    loop {
        if let Some(id) = g.next() {
            return id;
        }
    }
}

#[test]
fn ids_are_monotonic_and_unique() {
    let mut g = SnowflakeGenerator::new(3);
    let mut prev = next_id(&mut g);
    for _ in 0..10_000 {
        let n = next_id(&mut g);
        assert!(n > prev);
        assert_eq!(n.worker_id(), 3);
        prev = n;
    }
}

#[test]
fn bucket_matches_timestamp_division() {
    let mut g = SnowflakeGenerator::new(0);
    let id = next_id(&mut g);
    assert_eq!(
        id.bucket(),
        Snowflake::bucket_for_timestamp_ms(id.timestamp_ms())
    );
    assert!(Snowflake::lower_bound_for_bucket(id.bucket()) <= id);
    assert!(Snowflake::lower_bound_for_bucket(id.bucket() + 1) > id);
}

#[test]
fn parts_of_a_known_id() {
    let raw = (5u64 << 22) | (7 << 12) | 9;
    let id = Snowflake::from_raw(raw);
    assert_eq!(id.timestamp_ms(), omnidisc::snowflake::OMNIDISC_EPOCH_MS + 5);
    assert_eq!(id.worker_id(), 7);
    assert_eq!(id.sequence(), 9);
    assert!(!id.is_nil());
    assert!(Snowflake(0).is_nil());
}

#[test]
fn generator_runs_out_within_one_millisecond_and_recovers_on_the_next() {
    let mut g = SnowflakeGenerator::new(1);
    let now = omnidisc::snowflake::OMNIDISC_EPOCH_MS + 1_000;
    let first = g.next_at(now).unwrap();
    assert_eq!(first.sequence(), 0);
    for expected in 1..4096u16 {
        assert_eq!(g.next_at(now).unwrap().sequence(), expected);
    }
    assert!(g.next_at(now).is_none());
    let later = g.next_at(now + 1).unwrap();
    assert_eq!(later.sequence(), 0);
    assert!(later > first);
}

#[test]
fn bucket_of_the_epoch_is_zero() {
    assert_eq!(
        Snowflake::bucket_for_timestamp_ms(omnidisc::snowflake::OMNIDISC_EPOCH_MS),
        0
    );
    assert_eq!(Snowflake::lower_bound_for_bucket(0), Snowflake(0));
}

#[test]
fn decimal_form_round_trips() {
    let id = Snowflake(1234567890123);
    assert_eq!(id.to_string(), "1234567890123");
    assert_eq!(Snowflake::parse("1234567890123"), Some(id));
    assert_eq!(Snowflake::parse(&Snowflake(u64::MAX).to_string()), Some(Snowflake(u64::MAX)));
    assert_eq!(Snowflake::parse("+7"), Some(Snowflake(7)));
    assert_eq!(Snowflake::parse("18446744073709551616"), None);
    assert_eq!(Snowflake::parse("12a"), None);
    assert_eq!(Snowflake::parse(""), None);
    assert_eq!(Snowflake::from(5u64), Snowflake(5));
}
