use std::time::Duration;

use rlt::histogram::{LatencyHistogram, Percentiles};
use rlt::report::{BenchReport, IterReport};
use rlt::run::{PhaseReport, RunReport, report_counts_fit};
use rlt::schedule::Pacing;
use rlt::stats::IterStats;
use rlt::status::{Status, StatusKind};
use rlt::timestamp::Timestamp;

fn percentiles(hist: &LatencyHistogram) -> Percentiles {
    let h = &hist.histogram().0;
    Percentiles {
        p50: h.value_at_quantile(0.5),
        p90: h.value_at_quantile(0.90),
        p95: h.value_at_quantile(0.95),
        p99: h.value_at_quantile(0.99),
    }
}

/// A finished session with `iters` successful 10ms iterations.
fn bench(iters: u64, offered: u64, elapsed_secs: u64) -> BenchReport {
    let mut hist = LatencyHistogram::new();
    let mut stats = IterStats::new();
    let mut status_dist: Vec<(Status, u64)> = Vec::new();
    for _ in 0..iters {
        let iter = IterReport {
            duration: Duration::from_millis(10).as_nanos(),
            status: Status::success(0),
            bytes: 0,
            items: 1,
        };
        hist.record(iter.duration).unwrap();
        stats.record(&iter);
        match status_dist.iter_mut().find(|(s, _)| *s == iter.status) {
            Some((_, n)) => *n += 1,
            None => status_dist.push((iter.status, 1)),
        }
    }
    BenchReport {
        concurrency: 4,
        hist,
        stats,
        status_dist,
        error_dist: Vec::new(),
        elapsed: Duration::from_secs(elapsed_secs).as_nanos(),
        offered,
        dropped: offered.saturating_sub(iters),
        pacing: Pacing::Platform,
        rate_per_second: None,
    }
}

fn throughput(phase: &PhaseReport) -> f64 {
    let secs = Duration::from_nanos(phase.duration_nanos as u64).as_secs_f64();
    if secs <= 0.0 {
        return 0.0;
    }
    phase.ok as f64 / secs
}

#[test]
fn a_session_report_becomes_a_phase_entry() {
    let b = bench(20, 0, 2);
    let phase = PhaseReport::builder("registration".to_owned(), &b).build(&percentiles(&b.hist)).unwrap();

    assert_eq!(phase.label, "registration");
    assert_eq!(phase.concurrency, 4);
    assert_eq!(phase.completed, 20);
    assert_eq!(phase.ok, 20);
    assert_eq!(phase.dropped, 0);
    assert_eq!(phase.latency.count, 20);
    assert!(phase.latency.p99 > 0);
    assert_eq!(throughput(&phase), 10.0);
}

/// Iterations that failed finished, but they produced no latency.
#[test]
fn errors_are_completed_but_neither_ok_nor_latency() {
    let mut bench = bench(3, 0, 1);
    bench.error_dist.push(("client/connect".to_owned(), 2));

    let phase = PhaseReport::builder("registration".to_owned(), &bench).build(&percentiles(&bench.hist)).unwrap();

    assert_eq!(phase.completed, 5);
    assert_eq!(phase.ok, 3);
    assert_eq!(phase.latency.count, 3);
    assert_eq!(phase.outcome("client/connect"), Some(2));
    assert_eq!(phase.outcome("Success(0)"), Some(3));
}

fn label(status: &Status) -> String {
    match status.kind() {
        StatusKind::Success => "ok".to_owned(),
        _ => format!("code/{}", status.code()),
    }
}

/// Statuses and errors share one taxonomy, under the consumer's own names.
#[test]
fn a_status_label_renames_the_outcomes() {
    let mut bench = bench(3, 0, 1);
    bench.status_dist.push((Status::server_error(13), 1));
    bench.error_dist.push(("client/connect".to_owned(), 2));

    let phase = PhaseReport::builder("spam".to_owned(), &bench)
        .status_label(label)
        .build(&percentiles(&bench.hist)).unwrap();

    assert_eq!(phase.outcome("ok"), Some(3));
    assert_eq!(phase.outcome("code/13"), Some(1));
    assert_eq!(phase.outcome("client/connect"), Some(2));
}

#[test]
fn the_shortfall_survives_into_the_phase() {
    let mut bench = bench(30, 40, 29);
    bench.pacing = Pacing::Schedule;
    bench.rate_per_second = Some(1);

    let phase = PhaseReport::builder("steady".to_owned(), &bench).build(&percentiles(&bench.hist)).unwrap();

    assert_eq!(phase.offered, 40);
    assert_eq!(phase.dropped, 10);
    assert_eq!(phase.pacing, Pacing::Schedule);
    assert_eq!(phase.rate_per_second, Some(1));
}

/// Phases are recorded as they finish, so an overlapping run stays truthful.
#[test]
fn a_run_keeps_the_order_it_was_given() {
    struct Meta {
        agents: usize,
    }

    let mut run = RunReport::new(Meta { agents: 20 }).unwrap();
    let b = bench(5, 0, 1);
    run.record(PhaseReport::builder("background".to_owned(), &b).build(&percentiles(&b.hist)).unwrap());
    run.record(
        PhaseReport::builder("handshake".to_owned(), &b)
            .note("under load".to_owned())
            .build(&percentiles(&b.hist)).unwrap(),
    );

    assert_eq!(run.meta.agents, 20);
    let labels: Vec<_> = run.phases.iter().map(|p| p.label.as_str()).collect();
    assert_eq!(labels, ["background", "handshake"]);
    assert_eq!(
        run.phase("handshake").map(|p| p.notes.as_slice()),
        Some(&["under load".to_owned()][..])
    );
    assert!(run.phase("missing").is_none());
}

/// A closed-loop phase has no schedule, but it still has a target.
#[test]
fn a_declared_target_fills_in_for_a_schedule() {
    let bench = bench(17, 0, 2);
    assert_eq!(bench.offered, 0, "a closed run offers nothing");

    let phase = PhaseReport::builder("registration".to_owned(), &bench)
        .offered(20)
        .build(&percentiles(&bench.hist)).unwrap();

    assert_eq!(phase.offered, 20);
    assert_eq!(phase.completed, 17);
}

#[test]
fn notes_accumulate_however_they_are_added() {
    let b = bench(1, 0, 1);
    let phase = PhaseReport::builder("steady".to_owned(), &b)
        .note("first".to_owned())
        .notes(vec!["second".to_owned(), "third".to_owned()])
        .build(&percentiles(&b.hist)).unwrap();

    assert_eq!(phase.notes, ["first", "second", "third"]);
}

/// The default start is the phase's own, not the moment it was recorded.
#[test]
fn a_phase_is_dated_from_when_it_started() {
    let before = Timestamp::now().unwrap();
    let b = bench(1, 0, 30);
    let phase = PhaseReport::builder("steady".to_owned(), &b).build(&percentiles(&b.hist)).unwrap();

    assert!(phase.started_at < before, "a 30s phase cannot have started after it ended");
}

#[test]
fn a_phase_built_at_a_known_time_starts_its_elapsed_time_earlier() {
    let now = Timestamp::from_unix(1_000, 250).unwrap();
    let b = bench(1, 0, 30);
    let phase = PhaseReport::builder("steady".to_owned(), &b).build_at(&percentiles(&b.hist), now);
    assert_eq!((phase.started_at.secs(), phase.started_at.subsec_nanos()), (970, 250));
    assert_eq!(phase.duration_nanos, 30_000_000_000);
}

#[test]
fn a_set_start_is_kept() {
    let start = Timestamp::from_unix(5, 0).unwrap();
    let b = bench(1, 0, 30);
    let phase = PhaseReport::builder("steady".to_owned(), &b)
        .started_at(start)
        .build(&percentiles(&b.hist)).unwrap();
    assert_eq!(phase.started_at, start);
}

/// A name reached as a status and as an error is one outcome.
#[test]
fn a_name_reached_both_ways_is_counted_once() {
    let mut bench = bench(3, 0, 1);
    bench.error_dist.push(("Success(0)".to_owned(), 4));
    let phase = PhaseReport::builder("mixed".to_owned(), &bench).build(&percentiles(&bench.hist)).unwrap();
    assert_eq!(phase.outcome("Success(0)"), Some(7));
    assert_eq!(phase.outcomes.len(), 1);
}

#[test]
fn the_throughput_series_is_carried_into_the_phase() {
    let b = bench(2, 0, 2);
    let phase = PhaseReport::builder("steady".to_owned(), &b)
        .throughput(vec![(0, 1), (1, 1)])
        .build(&percentiles(&b.hist)).unwrap();
    assert_eq!(phase.throughput_per_sec, vec![(0, 1), (1, 1)]);
}

#[test]
fn a_run_started_at_a_known_time_keeps_it() {
    let start = Timestamp::from_unix(42, 7).unwrap();
    let run: RunReport<()> = RunReport::started_at(start, ());
    assert_eq!(run.started_at, start);
    assert!(run.phases.is_empty());
}

#[test]
fn the_first_phase_with_a_label_is_found() {
    let b = bench(1, 0, 1);
    let mut run = RunReport::new(()).unwrap();
    run.record(PhaseReport::builder("x".to_owned(), &b).note("one".to_owned()).build(&percentiles(&b.hist)).unwrap());
    run.record(PhaseReport::builder("x".to_owned(), &b).note("two".to_owned()).build(&percentiles(&b.hist)).unwrap());
    assert_eq!(run.phase("x").unwrap().notes, ["one"]);
}

#[test]
fn a_session_report_starts_empty() {
    let report = BenchReport::for_run(8, Pacing::Schedule, Some(200));
    assert_eq!(report.concurrency, 8);
    assert_eq!(report.pacing, Pacing::Schedule);
    assert_eq!(report.rate_per_second, Some(200));
    assert!(report.hist.is_empty());
    assert_eq!(report.stats.overall.iters, 0);
    assert_eq!(report.elapsed, 0);
    assert_eq!((report.offered, report.dropped), (0, 0));
}

#[test]
fn counts_that_overflow_are_caught_before_building() {
    let mut b = bench(3, 0, 1);
    assert!(report_counts_fit(&b));
    b.error_dist.push(("timeout".to_owned(), u64::MAX - 3));
    assert!(report_counts_fit(&b));
    b.error_dist.push(("reset".to_owned(), 1));
    assert!(!report_counts_fit(&b));
}

/// A status named the same as an error is one outcome, with both counts.
#[test]
fn a_status_name_equal_to_an_error_is_one_outcome() {
    let mut bench = bench(3, 0, 1);
    bench.status_dist.push((Status::server_error(13), 1));
    bench.error_dist.push(("code/13".to_owned(), 2));

    let phase = PhaseReport::builder("spam".to_owned(), &bench)
        .status_label(label)
        .build(&percentiles(&bench.hist)).unwrap();

    assert_eq!(phase.outcomes.len(), 2);
    assert_eq!(phase.outcome("ok"), Some(3));
    assert_eq!(phase.outcome("code/13"), Some(3));
}

/// Outcomes come in name order, whatever order the statuses and errors came in.
#[test]
fn outcomes_are_listed_in_name_order() {
    let mut bench = bench(3, 0, 1);
    bench.status_dist.push((Status::server_error(13), 1));
    bench.error_dist.push(("client/connect".to_owned(), 2));
    bench.error_dist.push(("busy".to_owned(), 4));

    let phase = PhaseReport::builder("spam".to_owned(), &bench)
        .status_label(label)
        .build(&percentiles(&bench.hist)).unwrap();

    let names: Vec<&str> = phase.outcomes.iter().map(|(n, _)| n.as_str()).collect();
    assert_eq!(names, vec!["busy", "client/connect", "code/13", "ok"]);
    let counts: Vec<u64> = phase.outcomes.iter().map(|(_, c)| *c).collect();
    assert_eq!(counts, vec![4, 2, 1, 3]);
}

/// Only a count under one name has to fit in `u64`; the statuses together may not.
#[test]
fn statuses_need_only_fit_one_name_at_a_time() {
    let mut b = bench(1, 0, 1);
    b.status_dist = vec![(Status::success(0), u64::MAX), (Status::server_error(13), u64::MAX)];
    assert!(report_counts_fit(&b));
    let phase = PhaseReport::builder("big".to_owned(), &b)
        .try_build(&percentiles(&b.hist))
        .expect("each name fits");
    assert_eq!(phase.outcome("Success(0)"), Some(u64::MAX));
    assert_eq!(phase.outcomes.len(), 2);
}

/// Two statuses that a label names alike add up under one name, and may overflow there.
#[test]
fn an_outcome_that_overflows_is_refused() {
    let mut b = bench(1, 0, 1);
    b.status_dist = vec![(Status::success(0), u64::MAX), (Status::success(1), 1)];
    assert!(report_counts_fit(&b));
    let built = PhaseReport::builder("big".to_owned(), &b)
        .status_label(label)
        .try_build(&percentiles(&b.hist));
    assert!(built.is_none());
    let named_apart = PhaseReport::builder("big".to_owned(), &b).try_build(&percentiles(&b.hist));
    assert!(named_apart.is_some());
}
