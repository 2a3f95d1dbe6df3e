//! The reports a benchmark produces: one per iteration, and one for the whole session.
use vstd::prelude::*;
use crate::histogram::LatencyHistogram;
use crate::schedule::Pacing;
use crate::stats::{Counter, IterStats};
use crate::status::Status;

verus! {

/// The report of one iteration.
#[derive(Debug, Clone, Copy, PartialEq, Eq, Structural)]
pub struct IterReport {
    /// How long the iteration took, in nanoseconds.
    pub duration: u128,
    /// The reported status of the iteration.
    pub status: Status,
    /// The bytes the iteration processed.
    pub bytes: u64,
    /// The items the iteration processed; useful when a service takes batches.
    pub items: u64,
}

/// The final report of a benchmark session.
#[derive(Debug, Clone)]
pub struct BenchReport {
    /// Number of workers that ran concurrently.
    pub concurrency: u32,
    /// Iteration latency histogram.
    pub hist: LatencyHistogram,
    /// Iteration statistics.
    pub stats: IterStats,
    /// How many iterations ended with each status. A status listed more than once counts
    /// with the sum of its entries.
    pub status_dist: Vec<(Status, u64)>,
    /// How many iterations failed with each error. An error listed more than once counts
    /// with the sum of its entries.
    pub error_dist: Vec<(String, u64)>,
    /// The total elapsed time of the benchmark, in nanoseconds.
    pub elapsed: u128,
    /// Iterations the schedule called for, in the open model; zero in the closed model.
    pub offered: u64,
    /// Iterations the schedule called for that no worker was free to take; zero in the
    /// closed model.
    pub dropped: u64,
    /// What set the pace, and therefore whether throughput is a result worth tracking.
    pub pacing: Pacing,
    /// The rate the run was configured for, in iterations per second, if any.
    pub rate_per_second: Option<u32>,
}

impl BenchReport {
    /// The report a session starts from: its configuration, and nothing measured yet.
    pub fn for_run(concurrency: u32, pacing: Pacing, rate_per_second: Option<u32>) -> (r: BenchReport)
        ensures
            r.concurrency == concurrency,
            r.pacing == pacing,
            r.rate_per_second == rate_per_second,
            r.hist@.len() == 0,
            r.stats.overall == (Counter { iters: 0, items: 0, bytes: 0, duration: 0 }),
            r.stats.by_status@.len() == 0,
            r.status_dist@.len() == 0,
            r.error_dist@.len() == 0,
            r.elapsed == 0,
            r.offered == 0,
            r.dropped == 0,
    {
        BenchReport {
            concurrency,
            hist: LatencyHistogram::new(),
            stats: IterStats::new(),
            status_dist: Vec::new(),
            error_dist: Vec::new(),
            elapsed: 0,
            offered: 0,
            dropped: 0,
            pacing,
            rate_per_second,
        }
    }
}

} // verus!
