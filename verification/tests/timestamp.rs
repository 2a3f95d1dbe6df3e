use rlt::timestamp::Timestamp;

#[test]
fn an_instant_earlier_by_some_time() {
    let t = Timestamp::from_unix(100, 500).unwrap();
    let e = t.earlier_by(1_000_000_000);
    assert_eq!((e.secs(), e.subsec_nanos()), (99, 500));
    let e = t.earlier_by(600);
    assert_eq!((e.secs(), e.subsec_nanos()), (99, 999_999_900));
    let e = t.earlier_by(0);
    assert_eq!(e, t);
}

#[test]
fn an_instant_before_the_epoch() {
    let t = Timestamp::from_unix(0, 0).unwrap();
    let e = t.earlier_by(1);
    assert_eq!((e.secs(), e.subsec_nanos()), (-1, 999_999_999));
}

#[test]
fn an_elapsed_time_beyond_a_time_delta_counts_as_none() {
    let t = Timestamp::from_unix(1_700_000_000, 0).unwrap();
    assert_eq!(t.earlier_by(u128::MAX), t);
}

#[test]
fn nanoseconds_of_a_second_or_more_are_refused() {
    assert!(Timestamp::from_unix(1, 1_000_000_000).is_none());
    assert!(Timestamp::from_unix(1, 999_999_999).is_some());
}

#[test]
fn now_is_after_the_epoch() {
    assert!(Timestamp::now().unwrap().secs() >= 1_600_000_000);
}

/// A span after the epoch becomes an instant exactly when its parts fit.
#[test]
fn a_span_after_the_epoch_is_an_instant() {
    let t = Timestamp::after_epoch(1_700_000_000, 5).unwrap();
    assert_eq!((t.secs(), t.subsec_nanos()), (1_700_000_000, 5));
    assert!(Timestamp::after_epoch(i64::MAX as u64, 999_999_999).is_some());
    assert!(Timestamp::after_epoch(i64::MAX as u64 + 1, 0).is_none());
    assert!(Timestamp::after_epoch(0, 1_000_000_000).is_none());
}
