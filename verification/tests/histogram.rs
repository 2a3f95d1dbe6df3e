use std::time::Duration;

use rlt::histogram::{CollectorError, LatencyHistogram, LatencyStats, Percentiles};

fn percentiles(hist: &LatencyHistogram) -> Percentiles {
    let h = &hist.histogram().0;
    Percentiles {
        p50: h.value_at_quantile(0.5),
        p90: h.value_at_quantile(0.90),
        p95: h.value_at_quantile(0.95),
        p99: h.value_at_quantile(0.99),
    }
}

#[test]
fn stats_come_off_the_histogram() {
    let mut hist = LatencyHistogram::new();
    for ms in 1..=100 {
        hist.record(Duration::from_millis(ms).as_nanos()).unwrap();
    }

    let stats = LatencyStats::from_histogram(&hist, &percentiles(&hist));
    assert_eq!(stats.count, 100);
    assert!(stats.min <= stats.p50, "{stats:?}");
    assert!(stats.p50 <= stats.p90, "{stats:?}");
    assert!(stats.p90 <= stats.p99, "{stats:?}");
    assert!(stats.p99 <= stats.max, "{stats:?}");
    // The histogram is accurate to three significant figures.
    assert!(stats.max.abs_diff(100_000_000) < 1_000_000, "{stats:?}");
}

/// A phase that recorded nothing still has to report something.
#[test]
fn an_empty_histogram_yields_zeroes() {
    let hist = LatencyHistogram::new();
    assert_eq!(LatencyStats::from_histogram(&hist, &percentiles(&hist)), LatencyStats::default());
}

#[test]
fn an_empty_histogram_ignores_the_percentiles_given() {
    let hist = LatencyHistogram::new();
    let tail = Percentiles { p50: 5, p90: 6, p95: 7, p99: 8 };
    assert_eq!(LatencyStats::from_histogram(&hist, &tail), LatencyStats::default());
}

#[test]
fn recording_counts_each_latency_once() {
    let mut hist = LatencyHistogram::new();
    assert!(hist.is_empty());
    assert_eq!(hist.len(), 0);
    hist.record(1_500).unwrap();
    hist.record(1_500).unwrap();
    hist.record(7).unwrap();
    assert!(!hist.is_empty());
    assert_eq!(hist.len(), 3);
    assert_eq!(hist.min(), 7);
    assert_eq!(hist.max(), 1_500);
}

#[test]
fn a_latency_beyond_u64_nanoseconds_is_too_large() {
    let mut hist = LatencyHistogram::new();
    let huge = u64::MAX as u128 + 1;
    match hist.record(huge) {
        Err(CollectorError::LatencyTooLarge { latency_nanos }) => assert_eq!(latency_nanos, huge),
        other => panic!("expected LatencyTooLarge, got {other:?}"),
    }
    assert!(hist.is_empty());
}

#[test]
fn summary_figures_are_exact_below_the_precision() {
    let mut hist = LatencyHistogram::new();
    for v in [100u128, 300] {
        hist.record(v).unwrap();
    }
    let stats = LatencyStats::from_histogram(&hist, &percentiles(&hist));
    assert_eq!(stats.count, 2);
    assert_eq!(stats.min, 100);
    assert_eq!(stats.max, 300);
    assert_eq!(stats.mean, 200);
    assert_eq!(stats.stdev, 100);
    assert_eq!(stats.p50, 100);
    assert_eq!(stats.p99, 300);
}

#[test]
fn quantile_steps_leave_out_empty_steps() {
    let mut hist = LatencyHistogram::new();
    for v in [10u128, 10, 20, 30] {
        hist.record(v).unwrap();
    }
    let steps = hist.quantiles();
    assert!(!steps.is_empty());
    assert!(steps.iter().all(|(_, n)| *n > 0));
    assert_eq!(steps.iter().map(|(_, n)| n).sum::<u64>(), 4);
    assert_eq!(steps.last().unwrap().0, 30);
}

#[test]
fn a_clone_keeps_every_latency() {
    let mut hist = LatencyHistogram::new();
    hist.record(42).unwrap();
    let copy = hist.clone();
    hist.record(43).unwrap();
    assert_eq!(copy.len(), 1);
    assert_eq!(hist.len(), 2);
}

/// The largest latency a `u64` holds is recorded like any other, growing the histogram.
#[test]
fn the_largest_latency_is_recorded() {
    let mut hist = LatencyHistogram::new();
    assert!(hist.record(u64::MAX as u128).is_ok());
    assert_eq!(hist.len(), 1);
}

/// Quantile steps walk upward and count every latency once, across magnitudes.
#[test]
fn quantile_steps_rise_and_count_everything() {
    let mut hist = LatencyHistogram::new();
    let mut n = 0u64;
    for v in [1u128, 5, 5, 900, 12_000, 12_000, 7_000_000, 3_000_000_000] {
        hist.record(v).unwrap();
        n += 1;
    }
    let steps = hist.quantiles();
    assert!(steps.windows(2).all(|w| w[0].0 < w[1].0));
    assert_eq!(steps.iter().map(|(_, c)| c).sum::<u64>(), n);
    assert!(LatencyHistogram::new().quantiles().is_empty());
}

/// The least and greatest figures bound every latency recorded.
#[test]
fn min_and_max_bound_every_latency() {
    let mut hist = LatencyHistogram::new();
    for v in [3u128, 70, 1_234_567, 99_999] {
        hist.record(v).unwrap();
    }
    assert!(hist.min() <= 3);
    assert!(hist.max() >= 1_234_567);
    assert!(hist.min() <= hist.max());
}
