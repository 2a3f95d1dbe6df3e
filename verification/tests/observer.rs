use rlt::observer::per_second_counts;

const SECOND: u128 = 1_000_000_000;

#[test]
fn completions_in_the_first_second_land_in_bucket_zero() {
    assert_eq!(per_second_counts(&vec![0, 1, SECOND - 1]), vec![(0, 3)]);
}

#[test]
fn seconds_with_no_completion_are_absent() {
    let offsets = vec![5 * SECOND + 3, SECOND / 2, 5 * SECOND, 2 * SECOND];
    assert_eq!(per_second_counts(&offsets), vec![(0, 1), (2, 1), (5, 2)]);
}

#[test]
fn no_completions_no_series() {
    assert!(per_second_counts(&Vec::new()).is_empty());
}

#[test]
fn every_completion_is_counted_once() {
    let offsets: Vec<u128> = (0..1000u128).map(|i| i * 7_000_000).collect();
    let buckets = per_second_counts(&offsets);
    assert_eq!(buckets.iter().map(|(_, n)| n).sum::<u64>(), 1000);
    assert!(buckets.windows(2).all(|w| w[0].0 < w[1].0));
}
