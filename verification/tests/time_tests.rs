use sensorlog::{
    current_millis, days_in_month, decide_after_create, decide_after_lookup, decide_after_retry,
    floor_millis, ingest_now, next_date, prev_date, CivilDate, ResolveDecision, StorageError,
    Store, CLOCK_MS_MAX, CLOCK_MS_MIN, TS_MAX, TS_MIN,
};

#[test]
fn floor_millis_truncates_toward_minus_infinity() {
    assert_eq!(floor_millis(5, 123_456_789), 5123);
    assert_eq!(floor_millis(5, 999_999_999), 5999);
    assert_eq!(floor_millis(0, 999_999), 0);
    assert_eq!(floor_millis(0, 1_000_000), 1);
    assert_eq!(floor_millis(0, -1), -1);
    assert_eq!(floor_millis(0, -999_999), -1);
    assert_eq!(floor_millis(0, -1_000_000), -1);
    assert_eq!(floor_millis(0, -1_000_001), -2);
    assert_eq!(floor_millis(-5, -123_456_789), -5124);
    assert_eq!(floor_millis(-5, -999_999_999), -6000);
    assert_eq!(floor_millis(-1, 0), -1000);
}

#[test]
fn floor_millis_is_monotonic_under_repeated_rounding() {
    // Flooring an already-whole millisecond changes nothing.
    let ms = floor_millis(5, 123_456_789);
    let again = floor_millis(ms / 1000, ((ms % 1000) * 1_000_000) as i32);
    assert_eq!(again, ms);
}

#[test]
fn current_millis_is_in_clock_range_and_nondecreasing() {
    let a = current_millis().unwrap();
    let b = current_millis().unwrap();
    assert!(CLOCK_MS_MIN <= a && a <= CLOCK_MS_MAX);
    assert!(a <= b);
    // A sane clock also lies inside the persistable window.
    assert!(TS_MIN <= a && a <= TS_MAX);
}

#[test]
fn ingest_now_stamps_server_time() {
    let mut store = Store::new();
    let before = current_millis().unwrap();
    let (rid, t) = ingest_now(&mut store, "AA:BB", 1, 2, 3, 4).unwrap();
    let after = current_millis().unwrap();
    assert_eq!(rid, 1);
    assert!(before <= t && t <= after);
    assert_eq!(store.readings[0].reading_time, t);
    assert_eq!(store.sensors[0].first_seen, t);
}

#[test]
fn month_lengths_follow_the_leap_year_rule() {
    assert_eq!(days_in_month(2024, 2), 29);
    assert_eq!(days_in_month(2023, 2), 28);
    assert_eq!(days_in_month(2100, 2), 28);
    assert_eq!(days_in_month(2000, 2), 29);
    assert_eq!(days_in_month(2024, 4), 30);
    assert_eq!(days_in_month(2024, 1), 31);
    assert_eq!(days_in_month(2024, 12), 31);
}

#[test]
fn next_and_prev_date_cross_month_and_year_boundaries() {
    let d = CivilDate { year: 2024, month: 2, day: 28 };
    assert_eq!(next_date(d), CivilDate { year: 2024, month: 2, day: 29 });
    let d = CivilDate { year: 2100, month: 2, day: 28 };
    assert_eq!(next_date(d), CivilDate { year: 2100, month: 3, day: 1 });
    let d = CivilDate { year: 2021, month: 12, day: 31 };
    assert_eq!(next_date(d), CivilDate { year: 2022, month: 1, day: 1 });
    let d = CivilDate { year: 2022, month: 1, day: 1 };
    assert_eq!(prev_date(d), CivilDate { year: 2021, month: 12, day: 31 });
    let d = CivilDate { year: 2021, month: 3, day: 1 };
    assert_eq!(prev_date(d), CivilDate { year: 2021, month: 2, day: 28 });
}

#[test]
fn resolver_protocol_resolves_hits_and_misses() {
    assert_eq!(decide_after_lookup(Ok(Some(7))), ResolveDecision::Done(7));
    assert_eq!(decide_after_lookup(Ok(None)), ResolveDecision::TryCreate);
    assert_eq!(
        decide_after_lookup(Err(StorageError::Timeout)),
        ResolveDecision::Fail(StorageError::Timeout)
    );
}

#[test]
fn resolver_protocol_recovers_only_the_creation_race() {
    assert_eq!(decide_after_create(Ok(9)), ResolveDecision::Done(9));
    assert_eq!(
        decide_after_create(Err(StorageError::UniqueViolation)),
        ResolveDecision::RetryLookup
    );
    assert_eq!(
        decide_after_create(Err(StorageError::Io)),
        ResolveDecision::Fail(StorageError::Io)
    );
    assert_eq!(
        decide_after_create(Err(StorageError::ForeignKeyViolation)),
        ResolveDecision::Fail(StorageError::ForeignKeyViolation)
    );
}

#[test]
fn resolver_protocol_retries_at_most_once() {
    assert_eq!(decide_after_retry(Ok(Some(3))), ResolveDecision::Done(3));
    assert_eq!(
        decide_after_retry(Ok(None)),
        ResolveDecision::Fail(StorageError::UniqueViolation)
    );
    assert_eq!(
        decide_after_retry(Err(StorageError::Timeout)),
        ResolveDecision::Fail(StorageError::Timeout)
    );
}
