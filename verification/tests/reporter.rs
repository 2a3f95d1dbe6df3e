use std::time::Duration;

use rlt::histogram::{LatencyHistogram, Percentiles};
use rlt::report::{BenchReport, IterReport};
use rlt::reporter::{BencherLine, BencherReporter, BencherRunReporter, Figure};
use rlt::run::{PhaseReport, RunReport};
use rlt::schedule::Pacing;
use rlt::stats::IterStats;
use rlt::status::Status;

fn percentiles(hist: &LatencyHistogram) -> Percentiles {
    let h = &hist.histogram().0;
    Percentiles {
        p50: h.value_at_quantile(0.5),
        p90: h.value_at_quantile(0.90),
        p95: h.value_at_quantile(0.95),
        p99: h.value_at_quantile(0.99),
    }
}

fn duration(nanos: u128) -> Duration {
    Duration::new((nanos / 1_000_000_000) as u64, (nanos % 1_000_000_000) as u32)
}

/// Lines as libtest's bencher output writes them.
fn render(lines: &[BencherLine]) -> String {
    let ns = |d: Duration| d.as_secs_f64() * 1e9;
    let mut out = String::new();
    for line in lines {
        let (value, variance) = match line.figure {
            Figure::Nanos { value, variance } => {
                (ns(Duration::from_nanos(value)), ns(Duration::from_nanos(variance)))
            }
            Figure::PerIteration { total_nanos, iters } => {
                (duration(total_nanos).as_secs_f64() / iters as f64 * 1e9, 0.0)
            }
        };
        out.push_str(&format!("test {} ... bench: {:.0} ns/iter (+/- {:.0})\n", line.name, value, variance));
    }
    out
}

fn report(offered: u64) -> BenchReport {
    let mut hist = LatencyHistogram::new();
    let mut stats = IterStats::new();
    for _ in 0..100 {
        let iter = IterReport {
            duration: Duration::from_millis(10).as_nanos(),
            status: Status::success(0),
            bytes: 0,
            items: 1,
        };
        hist.record(iter.duration).unwrap();
        stats.record(&iter);
    }

    BenchReport {
        concurrency: 1,
        hist,
        stats,
        status_dist: Vec::new(),
        error_dist: Vec::new(),
        elapsed: Duration::from_secs(1).as_nanos(),
        offered,
        dropped: offered / 2,
        pacing: Pacing::Platform,
        rate_per_second: None,
    }
}

fn render_report(offered: u64) -> String {
    let report = report(offered);
    render(&BencherReporter::new(None).lines(&report, &percentiles(&report.hist)))
}

#[test]
fn closed_runs_report_latency_and_throughput() {
    let out = render_report(0);
    assert_eq!(
        out,
        "test latency/mean ... bench: 9998336 ns/iter (+/- 0)\n\
         test latency/p50 ... bench: 10002431 ns/iter (+/- 0)\n\
         test latency/p90 ... bench: 10002431 ns/iter (+/- 0)\n\
         test latency/p99 ... bench: 10002431 ns/iter (+/- 0)\n\
         test latency/max ... bench: 10002431 ns/iter (+/- 0)\n\
         test throughput ... bench: 10000000 ns/iter (+/- 0)\n"
    );
}

/// The guard: an open-loop run's rate is set by the flag, so it must not be tracked.
#[test]
fn open_runs_omit_throughput() {
    let out = render_report(500);
    assert!(out.contains("latency/p99"), "latency is still reported: {out}");
    assert!(!out.contains("throughput"), "scheduled throughput must not be tracked: {out}");
}

/// A rate set by a schedule or bounded by the harness is not a result, even where the
/// counters show nothing offered.
#[test]
fn a_paced_session_publishes_no_throughput() {
    for pacing in [Pacing::Schedule, Pacing::Harness] {
        let mut report = report(0);
        report.pacing = pacing;
        let out = render(&BencherReporter::new(None).lines(&report, &percentiles(&report.hist)));
        assert!(out.contains("latency/p99"), "latency is still reported: {out}");
        assert!(!out.contains("throughput"), "a rate the driver set is not a result: {out}");
    }
}

#[test]
fn a_prefix_namespaces_every_metric() {
    let report = report(0);
    let out = render(&BencherReporter::new(Some("registration".into())).lines(&report, &percentiles(&report.hist)));
    assert!(out.lines().all(|l| l.starts_with("test registration/")), "{out}");
}

#[test]
fn an_empty_report_publishes_nothing() {
    let mut report = report(0);
    report.hist = LatencyHistogram::new();
    assert!(BencherReporter::new(None).lines(&report, &percentiles(&report.hist)).is_empty());
}

#[test]
fn a_report_with_no_time_publishes_no_throughput() {
    let mut report = report(0);
    report.elapsed = 0;
    let lines = BencherReporter::new(None).lines(&report, &percentiles(&report.hist));
    assert_eq!(lines.len(), 5);
    assert!(lines.iter().all(|l| matches!(l.figure, Figure::Nanos { .. })));
}

/// A finished session with `iters` successful 10ms iterations.
fn bench(iters: u64, offered: u64, elapsed_secs: u64) -> BenchReport {
    let mut report = report(0);
    report.hist = LatencyHistogram::new();
    report.stats = IterStats::new();
    for _ in 0..iters {
        let iter = IterReport {
            duration: Duration::from_millis(10).as_nanos(),
            status: Status::success(0),
            bytes: 0,
            items: 1,
        };
        report.hist.record(iter.duration).unwrap();
        report.stats.record(&iter);
    }
    report.status_dist = if iters > 0 { vec![(Status::success(0), iters)] } else { Vec::new() };
    report.concurrency = 4;
    report.elapsed = Duration::from_secs(elapsed_secs).as_nanos();
    report.offered = offered;
    report.dropped = offered.saturating_sub(iters);
    report
}

fn phase(label: &str, bench: &BenchReport) -> PhaseReport {
    PhaseReport::builder(label.to_owned(), bench).build(&percentiles(&bench.hist)).unwrap()
}

fn run() -> RunReport<()> {
    let mut run = RunReport::new(()).unwrap();

    let platform = bench(20, 0, 2);
    run.record(phase("registration", &platform));

    let mut scheduled = bench(30, 40, 29);
    scheduled.pacing = Pacing::Schedule;
    run.record(phase("steady", &scheduled));

    let mut bounded = bench(5, 0, 1);
    bounded.pacing = Pacing::Harness;
    run.record(phase("reconnect", &bounded));

    run
}

#[test]
fn every_phase_is_namespaced_by_its_label() {
    let out = render(&BencherRunReporter::new(Some("fleet".into())).lines(&run()));

    assert!(out.contains("test fleet/registration/latency/p99 ... bench: "), "{out}");
    assert!(out.contains("test fleet/steady/latency/p50 ... bench: "), "{out}");
    assert!(out.contains("test fleet/reconnect/latency/max ... bench: "), "{out}");
}

/// The guard is per phase: only the one the target paced publishes a rate.
#[test]
fn only_a_platform_paced_phase_publishes_throughput() {
    let out = render(&BencherRunReporter::new(Some("fleet".into())).lines(&run()));

    assert!(out.contains("fleet/registration/throughput"), "{out}");
    assert!(!out.contains("fleet/steady/throughput"), "a scheduled rate is an input: {out}");
    assert!(!out.contains("fleet/reconnect/throughput"), "a bound is not a rate: {out}");
}

#[test]
fn a_phase_with_no_latency_contributes_no_lines() {
    let mut run = RunReport::new(()).unwrap();
    run.record(phase("failed", &bench(0, 0, 0)));

    assert!(render(&BencherRunReporter::new(None).lines(&run)).is_empty());
}

#[test]
fn a_platform_phase_publishes_its_throughput_per_iteration() {
    let mut run = RunReport::new(()).unwrap();
    run.record(phase("registration", &bench(20, 0, 2)));
    let lines = BencherRunReporter::new(None).lines(&run);
    assert_eq!(lines.len(), 6);
    assert_eq!(lines[5].name, "registration/throughput");
    assert_eq!(lines[5].figure, Figure::PerIteration { total_nanos: 2_000_000_000, iters: 20 });
    assert_eq!(render(&lines[5..]), "test registration/throughput ... bench: 100000000 ns/iter (+/- 0)\n");
}
