//! Bencher-format metrics for `benchmark-action/github-action-benchmark`.
//!
//! The action's `cargo` parser reads libtest's benchmark lines:
//!
//! ```text
//! test latency/p99 ... bench:      1234567 ns/iter (+/- 0)
//! ```
//!
//! Everything is reported as nanoseconds per iteration: latency statistics directly, and
//! throughput as its reciprocal, so that lower is better in both.
//!
//! # The open-model guard
//!
//! When a schedule set the pace, the throughput line is not emitted: the rate is an input
//! there, and tracking it would fill the history with changes that mean nothing. Latency
//! stays meaningful either way.
use vstd::prelude::*;
use crate::histogram::{LatencyStats, Percentiles, hdr_max, hdr_mean, hdr_stdev};
use crate::report::BenchReport;
use crate::schedule::Pacing;

verus! {

/// The figure a bencher line carries, in nanoseconds per iteration.
#[derive(Debug, Clone, Copy, PartialEq, Eq, Structural)]
pub enum Figure {
    /// A latency statistic and its variance.
    Nanos { value: u64, variance: u64 },
    /// Throughput as its reciprocal: the time taken over the iterations completed.
    PerIteration { total_nanos: u128, iters: u64 },
}

/// One bencher line: a metric's name and its figure.
#[derive(Debug, Clone)]
pub struct BencherLine {
    /// The metric's name, namespaced by the reporter's prefix.
    pub name: String,
    /// The metric's figure.
    pub figure: Figure,
}

/// A line as a name and a figure.
pub open spec fn line_view(line: BencherLine) -> (Seq<char>, Figure) {
    (line.name@, line.figure)
}

/// `name`, namespaced as `prefix/name` when there is a prefix.
pub open spec fn qualified(prefix: Option<Seq<char>>, name: Seq<char>) -> Seq<char> {
    match prefix {
        Some(p) => p + seq!['/'] + name,
        None => name,
    }
}

/// The latency lines: mean with the standard deviation as its variance, then the
/// median, 90th and 99th percentiles and the maximum.
pub open spec fn latency_lines(
    prefix: Option<Seq<char>>,
    mean: u64,
    stdev: u64,
    p50: u64,
    p90: u64,
    p99: u64,
    max: u64,
) -> Seq<(Seq<char>, Figure)> {
    seq![
        (qualified(prefix, "latency/mean"@), Figure::Nanos { value: mean, variance: stdev }),
        (qualified(prefix, "latency/p50"@), Figure::Nanos { value: p50, variance: 0 }),
        (qualified(prefix, "latency/p90"@), Figure::Nanos { value: p90, variance: 0 }),
        (qualified(prefix, "latency/p99"@), Figure::Nanos { value: p99, variance: 0 }),
        (qualified(prefix, "latency/max"@), Figure::Nanos { value: max, variance: 0 }),
    ]
}

/// The throughput line, when it is published.
pub open spec fn throughput_lines(prefix: Option<Seq<char>>, published: bool, total_nanos: u128, iters: u64) -> Seq<(Seq<char>, Figure)> {
    if published {
        seq![(qualified(prefix, "throughput"@), Figure::PerIteration { total_nanos, iters })]
    } else {
        Seq::empty()
    }
}

/// The lines a session's report publishes: none when no latency was recorded; otherwise
/// the latency lines, then throughput when the target set the pace, no schedule offered
/// anything, some iterations finished and time passed.
pub open spec fn report_lines(prefix: Option<Seq<char>>, report: BenchReport, tail: Percentiles) -> Seq<(Seq<char>, Figure)> {
    let values = report.hist@;
    let precision = report.hist.precision();
    if values.len() == 0 {
        Seq::empty()
    } else {
        latency_lines(
            prefix,
            hdr_mean(values, precision),
            hdr_stdev(values, precision),
            tail.p50,
            tail.p90,
            tail.p99,
            hdr_max(values, precision),
        ) + throughput_lines(
            prefix,
            report.pacing == Pacing::Platform && report.offered == 0 && report.stats.overall.iters > 0
                && report.elapsed > 0,
            report.elapsed,
            report.stats.overall.iters,
        )
    }
}

/// The lines a reduced latency distribution publishes: none when it counted nothing;
/// otherwise the latency lines, then throughput when the target set the pace, some
/// iterations finished and time passed.
pub open spec fn stats_lines(
    prefix: Option<Seq<char>>,
    latency: LatencyStats,
    pacing: Pacing,
    iters: u64,
    duration_nanos: u128,
) -> Seq<(Seq<char>, Figure)> {
    if latency.count == 0 {
        Seq::empty()
    } else {
        latency_lines(prefix, latency.mean, latency.stdev, latency.p50, latency.p90, latency.p99, latency.max)
            + throughput_lines(prefix, pacing == Pacing::Platform && iters > 0 && duration_nanos > 0, duration_nanos, iters)
    }
}

proof fn lemma_lines_read_off(
    lines: Seq<BencherLine>,
    prefix: Option<Seq<char>>,
    mean: u64,
    stdev: u64,
    p50: u64,
    p90: u64,
    p99: u64,
    max: u64,
    published: bool,
    total_nanos: u128,
    iters: u64,
)
    requires
        lines.map_values(|l: BencherLine| line_view(l))
            == latency_lines(prefix, mean, stdev, p50, p90, p99, max) + throughput_lines(prefix, published, total_nanos, iters),
    ensures
        lines.len() == if published { 6int } else { 5int },
        lines[0].name@ == qualified(prefix, "latency/mean"@),
        lines[0].figure == (Figure::Nanos { value: mean, variance: stdev }),
        lines[1].name@ == qualified(prefix, "latency/p50"@),
        lines[1].figure == (Figure::Nanos { value: p50, variance: 0 }),
        lines[2].name@ == qualified(prefix, "latency/p90"@),
        lines[2].figure == (Figure::Nanos { value: p90, variance: 0 }),
        lines[3].name@ == qualified(prefix, "latency/p99"@),
        lines[3].figure == (Figure::Nanos { value: p99, variance: 0 }),
        lines[4].name@ == qualified(prefix, "latency/max"@),
        lines[4].figure == (Figure::Nanos { value: max, variance: 0 }),
        published ==> lines[5].name@ == qualified(prefix, "throughput"@)
            && lines[5].figure == (Figure::PerIteration { total_nanos, iters }),
{
    let views = lines.map_values(|l: BencherLine| line_view(l));
    let rhs = latency_lines(prefix, mean, stdev, p50, p90, p99, max) + throughput_lines(prefix, published, total_nanos, iters);
    assert(views.len() == rhs.len());
    assert forall|k: int| 0 <= k < lines.len() implies #[trigger] line_view(lines[k]) == rhs[k] by {
        assert(views[k] == line_view(lines[k]));
    }
    assert(line_view(lines[0]) == rhs[0]);
    assert(line_view(lines[1]) == rhs[1]);
    assert(line_view(lines[2]) == rhs[2]);
    assert(line_view(lines[3]) == rhs[3]);
    assert(line_view(lines[4]) == rhs[4]);
    if published {
        assert(line_view(lines[5]) == rhs[5]);
    }
}

/// Each percentile line of a report carries the percentile of its own rank: the median
/// under `latency/p50`, the 90th under `latency/p90`, the 99th under `latency/p99`.
pub proof fn lemma_each_percentile_line_carries_its_rank(prefix: Option<Seq<char>>, report: BenchReport, tail: Percentiles)
    requires
        report.hist@.len() > 0,
    ensures
        report_lines(prefix, report, tail)[1] == (qualified(prefix, "latency/p50"@), Figure::Nanos { value: tail.p50, variance: 0 }),
        report_lines(prefix, report, tail)[2] == (qualified(prefix, "latency/p90"@), Figure::Nanos { value: tail.p90, variance: 0 }),
        report_lines(prefix, report, tail)[3] == (qualified(prefix, "latency/p99"@), Figure::Nanos { value: tail.p99, variance: 0 }),
{
}

/// Each percentile line of a reduced distribution carries the percentile of its own rank.
pub proof fn lemma_each_summary_line_carries_its_rank(
    prefix: Option<Seq<char>>,
    latency: LatencyStats,
    pacing: Pacing,
    iters: u64,
    duration_nanos: u128,
)
    requires
        latency.count > 0,
    ensures
        stats_lines(prefix, latency, pacing, iters, duration_nanos)[1]
            == (qualified(prefix, "latency/p50"@), Figure::Nanos { value: latency.p50, variance: 0 }),
        stats_lines(prefix, latency, pacing, iters, duration_nanos)[2]
            == (qualified(prefix, "latency/p90"@), Figure::Nanos { value: latency.p90, variance: 0 }),
        stats_lines(prefix, latency, pacing, iters, duration_nanos)[3]
            == (qualified(prefix, "latency/p99"@), Figure::Nanos { value: latency.p99, variance: 0 }),
{
}

/// Whether `name` lies in the namespace `space`: it starts with `space/`.
pub open spec fn in_namespace(name: Seq<char>, space: Seq<char>) -> bool {
    name.len() > space.len() && name.take(space.len() as int + 1) == space + seq!['/']
}

/// Whether a line publishes throughput.
pub open spec fn is_throughput(line: (Seq<char>, Figure)) -> bool {
    line.1 is PerIteration
}

proof fn lemma_qualified_in_namespace(p: Seq<char>, name: Seq<char>)
    requires
        name.len() > 0,
    ensures
        in_namespace(qualified(Some(p), name), p),
{
    assert((p + seq!['/'] + name).take(p.len() as int + 1) =~= p + seq!['/']);
}

/// Nothing recorded, nothing published: a report with no latency, and a distribution
/// that counted nothing, publish no lines.
pub proof fn lemma_no_latency_no_lines(
    prefix: Option<Seq<char>>,
    report: BenchReport,
    tail: Percentiles,
    latency: LatencyStats,
    pacing: Pacing,
    iters: u64,
    duration_nanos: u128,
)
    ensures
        report.hist@.len() == 0 ==> report_lines(prefix, report, tail).len() == 0,
        latency.count == 0 ==> stats_lines(prefix, latency, pacing, iters, duration_nanos).len() == 0,
{
}

/// The open-model guard: a report that the target did not pace, or whose schedule offered
/// anything, publishes no throughput.
pub proof fn lemma_open_runs_omit_throughput(prefix: Option<Seq<char>>, report: BenchReport, tail: Percentiles)
    requires
        report.offered > 0 || report.pacing != Pacing::Platform,
    ensures
        forall|i: int| 0 <= i < report_lines(prefix, report, tail).len()
            ==> !is_throughput(#[trigger] report_lines(prefix, report, tail)[i]),
{
}

/// The pacing guard: only a distribution the target paced publishes throughput, and it
/// does when iterations finished in some time.
pub proof fn lemma_only_platform_pacing_publishes_throughput(
    prefix: Option<Seq<char>>,
    latency: LatencyStats,
    pacing: Pacing,
    iters: u64,
    duration_nanos: u128,
)
    ensures
        (exists|i: int| 0 <= i < stats_lines(prefix, latency, pacing, iters, duration_nanos).len()
            && is_throughput(#[trigger] stats_lines(prefix, latency, pacing, iters, duration_nanos)[i]))
            <==> (latency.count > 0 && pacing == Pacing::Platform && iters > 0 && duration_nanos > 0),
{
    let lines = stats_lines(prefix, latency, pacing, iters, duration_nanos);
    if latency.count > 0 && pacing == Pacing::Platform && iters > 0 && duration_nanos > 0 {
        assert(is_throughput(lines[5]));
    }
}

/// A prefix namespaces every metric a report publishes.
pub proof fn lemma_prefix_namespaces_every_metric(p: Seq<char>, report: BenchReport, tail: Percentiles)
    ensures
        forall|i: int| 0 <= i < report_lines(Some(p), report, tail).len()
            ==> in_namespace(#[trigger] report_lines(Some(p), report, tail)[i].0, p),
{
    reveal_strlit("latency/mean");
    reveal_strlit("latency/p50");
    reveal_strlit("latency/p90");
    reveal_strlit("latency/p99");
    reveal_strlit("latency/max");
    reveal_strlit("throughput");
    lemma_qualified_in_namespace(p, "latency/mean"@);
    lemma_qualified_in_namespace(p, "latency/p50"@);
    lemma_qualified_in_namespace(p, "latency/p90"@);
    lemma_qualified_in_namespace(p, "latency/p99"@);
    lemma_qualified_in_namespace(p, "latency/max"@);
    lemma_qualified_in_namespace(p, "throughput"@);
}

/// A prefix namespaces every metric a reduced distribution publishes.
pub proof fn lemma_prefix_namespaces_every_stat(
    p: Seq<char>,
    latency: LatencyStats,
    pacing: Pacing,
    iters: u64,
    duration_nanos: u128,
)
    ensures
        forall|i: int| 0 <= i < stats_lines(Some(p), latency, pacing, iters, duration_nanos).len()
            ==> in_namespace(#[trigger] stats_lines(Some(p), latency, pacing, iters, duration_nanos)[i].0, p),
{
    reveal_strlit("latency/mean");
    reveal_strlit("latency/p50");
    reveal_strlit("latency/p90");
    reveal_strlit("latency/p99");
    reveal_strlit("latency/max");
    reveal_strlit("throughput");
    lemma_qualified_in_namespace(p, "latency/mean"@);
    lemma_qualified_in_namespace(p, "latency/p50"@);
    lemma_qualified_in_namespace(p, "latency/p90"@);
    lemma_qualified_in_namespace(p, "latency/p99"@);
    lemma_qualified_in_namespace(p, "latency/max"@);
    lemma_qualified_in_namespace(p, "throughput"@);
}

/// A reporter that publishes bencher-format metrics, optionally namespaced by a prefix.
#[derive(Debug)]
pub struct BencherReporter {
    prefix: Option<String>,
}

impl Clone for BencherReporter {
    fn clone(&self) -> (r: BencherReporter)
        ensures
            r.prefix_of() == self.prefix_of(),
    {
        let prefix = match &self.prefix {
            Some(p) => Some(p.clone()),
            None => None,
        };
        BencherReporter { prefix }
    }
}

impl Default for BencherReporter {
    fn default() -> (r: BencherReporter)
        ensures
            r.prefix_of() is None,
    {
        BencherReporter { prefix: None }
    }
}

impl BencherReporter {
    /// The prefix every metric is namespaced with, if any.
    pub closed spec fn prefix_of(&self) -> Option<Seq<char>> {
        match self.prefix {
            Some(p) => Some(p@),
            None => None,
        }
    }

    /// Create a reporter, optionally namespacing every metric with `prefix/`.
    ///
    /// A prefix keeps several phases of one run apart in the same history.
    pub fn new(prefix: Option<String>) -> (r: BencherReporter)
        ensures
            r.prefix_of() == match prefix {
                Some(p) => Some(p@),
                None => None::<Seq<char>>,
            },
    {
        BencherReporter { prefix }
    }

    /// The metric `name`, namespaced by the prefix.
    fn name(&self, name: &str) -> (s: String)
        ensures
            s@ == qualified(self.prefix_of(), name@),
    {
        match &self.prefix {
            Some(prefix) => {
                let mut s = prefix.clone();
                proof {
                    reveal_strlit("/");
                }
                s.append("/");
                s.append(name);
                assert(s@ =~= prefix@ + seq!['/'] + name@);
                s
            },
            None => String::from_str(name),
        }
    }

    fn push_latency_lines(
        &self,
        lines: &mut Vec<BencherLine>,
        mean: u64,
        stdev: u64,
        p50: u64,
        p90: u64,
        p99: u64,
        max: u64,
    )
        ensures
            final(lines)@.map_values(|l: BencherLine| line_view(l))
                == old(lines)@.map_values(|l: BencherLine| line_view(l))
                + latency_lines(self.prefix_of(), mean, stdev, p50, p90, p99, max),
    {
        let ghost start = lines@;
        lines.push(BencherLine { name: self.name("latency/mean"), figure: Figure::Nanos { value: mean, variance: stdev } });
        lines.push(BencherLine { name: self.name("latency/p50"), figure: Figure::Nanos { value: p50, variance: 0 } });
        lines.push(BencherLine { name: self.name("latency/p90"), figure: Figure::Nanos { value: p90, variance: 0 } });
        lines.push(BencherLine { name: self.name("latency/p99"), figure: Figure::Nanos { value: p99, variance: 0 } });
        lines.push(BencherLine { name: self.name("latency/max"), figure: Figure::Nanos { value: max, variance: 0 } });
        assert(lines@.map_values(|l: BencherLine| line_view(l)) =~= start.map_values(|l: BencherLine| line_view(l))
            + latency_lines(self.prefix_of(), mean, stdev, p50, p90, p99, max));
    }

    fn push_throughput_line(&self, lines: &mut Vec<BencherLine>, published: bool, total_nanos: u128, iters: u64)
        ensures
            final(lines)@.map_values(|l: BencherLine| line_view(l))
                == old(lines)@.map_values(|l: BencherLine| line_view(l))
                + throughput_lines(self.prefix_of(), published, total_nanos, iters),
    {
        let ghost start = lines@;
        if published {
            lines.push(BencherLine { name: self.name("throughput"), figure: Figure::PerIteration { total_nanos, iters } });
        }
        assert(lines@.map_values(|l: BencherLine| line_view(l)) =~= start.map_values(|l: BencherLine| line_view(l))
            + throughput_lines(self.prefix_of(), published, total_nanos, iters));
    }

    /// The lines a session's report publishes, with `tail` the percentiles read off its
    /// latency histogram.
    pub fn lines(&self, report: &BenchReport, tail: &Percentiles) -> (lines: Vec<BencherLine>)
        ensures
            lines@.map_values(|l: BencherLine| line_view(l)) == report_lines(self.prefix_of(), *report, *tail),
            report.hist@.len() == 0 ==> lines@.len() == 0,
            report.hist@.len() > 0 ==> {
                let values = report.hist@;
                let precision = report.hist.precision();
                let prefix = self.prefix_of();
                let published = report.pacing == Pacing::Platform && report.offered == 0
                    && report.stats.overall.iters > 0 && report.elapsed > 0;
                &&& lines@.len() == if published { 6int } else { 5int }
                &&& lines@[0].name@ == qualified(prefix, "latency/mean"@)
                &&& lines@[0].figure == (Figure::Nanos { value: hdr_mean(values, precision), variance: hdr_stdev(values, precision) })
                &&& lines@[1].name@ == qualified(prefix, "latency/p50"@)
                &&& lines@[1].figure == (Figure::Nanos { value: tail.p50, variance: 0 })
                &&& lines@[2].name@ == qualified(prefix, "latency/p90"@)
                &&& lines@[2].figure == (Figure::Nanos { value: tail.p90, variance: 0 })
                &&& lines@[3].name@ == qualified(prefix, "latency/p99"@)
                &&& lines@[3].figure == (Figure::Nanos { value: tail.p99, variance: 0 })
                &&& lines@[4].name@ == qualified(prefix, "latency/max"@)
                &&& lines@[4].figure == (Figure::Nanos { value: hdr_max(values, precision), variance: 0 })
                &&& published ==> lines@[5].name@ == qualified(prefix, "throughput"@)
                    && lines@[5].figure == (Figure::PerIteration { total_nanos: report.elapsed, iters: report.stats.overall.iters })
            },
    {
        let mut lines: Vec<BencherLine> = Vec::new();
        if report.hist.is_empty() {
            assert(lines@.map_values(|l: BencherLine| line_view(l)) =~= Seq::<(Seq<char>, Figure)>::empty());
            return lines;
        }
        assert(lines@.map_values(|l: BencherLine| line_view(l)) =~= Seq::<(Seq<char>, Figure)>::empty());
        self.push_latency_lines(
            &mut lines,
            report.hist.mean(),
            report.hist.stdev(),
            tail.p50,
            tail.p90,
            tail.p99,
            report.hist.max(),
        );
        // A rate the schedule or the harness set is an input, not a result.
        let platform_paced = match report.pacing {
            Pacing::Platform => true,
            _ => false,
        };
        let schedule_paced = !platform_paced || report.offered > 0;
        let iters = report.stats.overall.iters;
        self.push_throughput_line(&mut lines, !schedule_paced && iters > 0 && report.elapsed > 0, report.elapsed, iters);
        proof {
            let values = report.hist@;
            let precision = report.hist.precision();
            lemma_lines_read_off(
                lines@, self.prefix_of(), hdr_mean(values, precision), hdr_stdev(values, precision), tail.p50, tail.p90,
                tail.p99, hdr_max(values, precision), report.pacing == Pacing::Platform && report.offered == 0
                    && report.stats.overall.iters > 0 && report.elapsed > 0, report.elapsed, report.stats.overall.iters,
            );
        }
        lines
    }

    /// The lines a reduced latency distribution publishes, with `pacing` what set the pace,
    /// `iters` the iterations it covers and `duration_nanos` the time they took.
    pub fn stats_lines(&self, latency: &LatencyStats, pacing: Pacing, iters: u64, duration_nanos: u128) -> (lines: Vec<BencherLine>)
        ensures
            lines@.map_values(|l: BencherLine| line_view(l)) == stats_lines(self.prefix_of(), *latency, pacing, iters, duration_nanos),
            latency.count == 0 ==> lines@.len() == 0,
            latency.count > 0 ==> {
                let prefix = self.prefix_of();
                let published = pacing == Pacing::Platform && iters > 0 && duration_nanos > 0;
                &&& lines@.len() == if published { 6int } else { 5int }
                &&& lines@[0].name@ == qualified(prefix, "latency/mean"@)
                &&& lines@[0].figure == (Figure::Nanos { value: latency.mean, variance: latency.stdev })
                &&& lines@[1].name@ == qualified(prefix, "latency/p50"@)
                &&& lines@[1].figure == (Figure::Nanos { value: latency.p50, variance: 0 })
                &&& lines@[2].name@ == qualified(prefix, "latency/p90"@)
                &&& lines@[2].figure == (Figure::Nanos { value: latency.p90, variance: 0 })
                &&& lines@[3].name@ == qualified(prefix, "latency/p99"@)
                &&& lines@[3].figure == (Figure::Nanos { value: latency.p99, variance: 0 })
                &&& lines@[4].name@ == qualified(prefix, "latency/max"@)
                &&& lines@[4].figure == (Figure::Nanos { value: latency.max, variance: 0 })
                &&& published ==> lines@[5].name@ == qualified(prefix, "throughput"@)
                    && lines@[5].figure == (Figure::PerIteration { total_nanos: duration_nanos, iters })
            },
    {
        let mut lines: Vec<BencherLine> = Vec::new();
        assert(lines@.map_values(|l: BencherLine| line_view(l)) =~= Seq::<(Seq<char>, Figure)>::empty());
        if latency.count == 0 {
            return lines;
        }
        self.push_latency_lines(&mut lines, latency.mean, latency.stdev, latency.p50, latency.p90, latency.p99, latency.max);
        let platform_paced = match pacing {
            Pacing::Platform => true,
            _ => false,
        };
        self.push_throughput_line(&mut lines, platform_paced && iters > 0 && duration_nanos > 0, duration_nanos, iters);
        proof {
            lemma_lines_read_off(
                lines@, self.prefix_of(), latency.mean, latency.stdev, latency.p50, latency.p90, latency.p99, latency.max,
                pacing == Pacing::Platform && iters > 0 && duration_nanos > 0, duration_nanos, iters,
            );
        }
        lines
    }
}

} // verus!
