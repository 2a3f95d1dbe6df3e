//! Multi-phase runs: several sessions recorded as one document.
//!
//! A [`RunReport`] is a recorder, not a driver: phases are pushed into it as they finish,
//! so a run whose phases overlap is recorded exactly as it happened.
use vstd::prelude::*;
use crate::histogram::{LatencyStats, Percentiles, stats_of};
use crate::name_order::{comes_before, lemma_name_before_irreflexive, lemma_name_before_total, lemma_name_before_transitive, name_before};
use crate::report::BenchReport;
use crate::schedule::Pacing;
use crate::stats::success_iters;
use crate::status::{Status, status_text};
use crate::timestamp::{Timestamp, earlier_by};

verus! {

/// How an iteration [`Status`] is named in [`PhaseReport::outcomes`].
///
/// Consumers that map their protocol's codes onto [`Status`] usually want their own
/// names back: any function from a status to a name labels statuses. [`DisplayStatus`]
/// names a status as it is written, as in `Success(0)`.
pub trait StatusLabel {
    /// Whether this labelling can name `status`.
    spec fn can_name(&self, status: Status) -> bool;

    /// Whether this labelling may name `status` as `name`.
    spec fn names(&self, status: Status, name: Seq<char>) -> bool;

    /// The name `status` is counted under.
    fn label(&self, status: &Status) -> (name: String)
        requires
            self.can_name(*status),
        ensures
            self.names(*status, name@),
    ;
}

/// Names a status as it is written, as in `Success(0)`.
#[derive(Debug, Clone, Copy, PartialEq, Eq, Default)]
pub struct DisplayStatus;

impl StatusLabel for DisplayStatus {
    open spec fn can_name(&self, status: Status) -> bool {
        true
    }

    open spec fn names(&self, status: Status, name: Seq<char>) -> bool {
        name == status_text(status.kind_of(), status.code_of() as int)
    }

    fn label(&self, status: &Status) -> (s: String) {
        status.to_text()
    }
}

/// A function from a status to its name labels statuses by calling it.
impl<F: Fn(&Status) -> String> StatusLabel for F {
    open spec fn can_name(&self, status: Status) -> bool {
        call_requires(*self, (&status,))
    }

    open spec fn names(&self, status: Status, name: Seq<char>) -> bool {
        exists|r: String| call_ensures(*self, (&status,), r) && r@ == name
    }

    fn label(&self, status: &Status) -> (name: String) {
        let name = (self)(status);
        assert(call_ensures(*self, (status,), name));
        name
    }
}

/// A function can name exactly the statuses it can be called with.
pub proof fn lemma_function_can_name<F: Fn(&Status) -> String>(f: F, status: Status)
    ensures
        f.can_name(status) == call_requires(f, (&status,)),
{
}

/// A function names a status by exactly what it may return for it.
pub proof fn lemma_function_names<F: Fn(&Status) -> String>(f: F, status: Status, name: Seq<char>)
    ensures
        f.names(status, name) == exists|r: String| call_ensures(f, (&status,), r) && r@ == name,
{
}

/// The sum of the counts in a distribution.
pub open spec fn counts_total<K>(dist: Seq<(K, u64)>) -> int
    decreases dist.len(),
{
    if dist.len() == 0 {
        0
    } else {
        counts_total(dist.drop_last()) + dist.last().1
    }
}

/// Counts by name: every name in `pairs` with the sum of the counts it comes with.
pub open spec fn tally(pairs: Seq<(String, u64)>) -> Map<Seq<char>, int>
    decreases pairs.len(),
{
    if pairs.len() == 0 {
        Map::empty()
    } else {
        let before = tally(pairs.drop_last());
        let name = pairs.last().0@;
        let sofar = if before.dom().contains(name) { before[name] } else { 0 };
        before.insert(name, sofar + pairs.last().1)
    }
}

/// `entries` lists the counts of `counts`: one entry per name, each with its count.
pub open spec fn lists(entries: Seq<(String, u64)>, counts: Map<Seq<char>, int>) -> bool {
    &&& forall|i: int, j: int| 0 <= i < j < entries.len() ==> entries[i].0@ != entries[j].0@
    &&& forall|i: int| 0 <= i < entries.len() ==> #[trigger] counts.dom().contains(entries[i].0@)
        && counts[entries[i].0@] == entries[i].1
    &&& forall|name: Seq<char>| #[trigger] counts.dom().contains(name)
        ==> exists|i: int| 0 <= i < entries.len() && entries[i].0@ == name
}

/// The status distribution with each status replaced by the name it was given.
pub open spec fn named(names: Seq<String>, dist: Seq<(Status, u64)>) -> Seq<(String, u64)> {
    Seq::new(dist.len(), |i: int| (names[i], dist[i].1))
}

proof fn lemma_counts_total_prefix<K>(s: Seq<(K, u64)>, n: int)
    requires
        0 <= n <= s.len(),
    ensures
        0 <= counts_total(s.take(n)) <= counts_total(s),
    decreases s.len(),
{
    if s.len() == 0 {
        assert(s.take(n) =~= s);
    } else if n == s.len() {
        assert(s.take(n) =~= s);
        lemma_counts_total_prefix(s.drop_last(), n - 1);
    } else {
        lemma_counts_total_prefix(s.drop_last(), n);
        assert(s.drop_last().take(n) =~= s.take(n));
    }
}

/// The sum of the counts that `pairs` gives the name `name`.
pub open spec fn count_named(pairs: Seq<(String, u64)>, name: Seq<char>) -> int
    decreases pairs.len(),
{
    if pairs.len() == 0 {
        0
    } else {
        count_named(pairs.drop_last(), name) + if pairs.last().0@ == name { pairs.last().1 as int } else { 0int }
    }
}

proof fn lemma_tally_counts_named(pairs: Seq<(String, u64)>, name: Seq<char>)
    ensures
        tally(pairs).dom().contains(name) <==> exists|k: int| 0 <= k < pairs.len() && pairs[k].0@ == name,
        tally(pairs).dom().contains(name) ==> tally(pairs)[name] == count_named(pairs, name),
    decreases pairs.len(),
{
    if pairs.len() > 0 {
        let rest = pairs.drop_last();
        lemma_tally_counts_named(rest, name);
        if exists|k: int| 0 <= k < rest.len() && rest[k].0@ == name {
            let k = choose|k: int| 0 <= k < rest.len() && rest[k].0@ == name;
            assert(pairs[k] == rest[k]);
        }
        if exists|k: int| 0 <= k < pairs.len() && pairs[k].0@ == name {
            let k = choose|k: int| 0 <= k < pairs.len() && pairs[k].0@ == name;
            if k < rest.len() {
                assert(rest[k] == pairs[k]);
            } else {
                assert(pairs.last() == pairs[k]);
            }
        }
        if !tally(rest).dom().contains(name) && pairs.last().0@ == name {
            assert(count_named(rest, name) == 0) by {
                lemma_count_named_absent(rest, name);
            }
        }
    }
}

proof fn lemma_count_named_absent(pairs: Seq<(String, u64)>, name: Seq<char>)
    requires
        forall|k: int| 0 <= k < pairs.len() ==> pairs[k].0@ != name,
    ensures
        count_named(pairs, name) == 0,
    decreases pairs.len(),
{
    if pairs.len() > 0 {
        let rest = pairs.drop_last();
        assert forall|k: int| 0 <= k < rest.len() implies rest[k].0@ != name by {
            assert(rest[k] == pairs[k]);
        }
        lemma_count_named_absent(rest, name);
        assert(pairs.last() == pairs[pairs.len() - 1]);
    }
}

/// One taxonomy of outcomes: a name is listed exactly when some status or error was
/// counted under it, once, with the sum of every count it was reached with.
pub proof fn lemma_each_name_counted_once(pairs: Seq<(String, u64)>, entries: Seq<(String, u64)>, name: Seq<char>)
    requires
        lists(entries, tally(pairs)),
    ensures
        (exists|i: int| 0 <= i < entries.len() && entries[i].0@ == name)
            <==> (exists|k: int| 0 <= k < pairs.len() && pairs[k].0@ == name),
        forall|i: int, j: int| 0 <= i < entries.len() && 0 <= j < entries.len()
            && entries[i].0@ == name && entries[j].0@ == name ==> i == j,
        forall|i: int| 0 <= i < entries.len() && entries[i].0@ == name
            ==> entries[i].1 == count_named(pairs, name),
{
    lemma_tally_counts_named(pairs, name);
    if exists|i: int| 0 <= i < entries.len() && entries[i].0@ == name {
        let i = choose|i: int| 0 <= i < entries.len() && entries[i].0@ == name;
        assert(tally(pairs).dom().contains(entries[i].0@));
    }
    assert forall|i: int, j: int| 0 <= i < entries.len() && 0 <= j < entries.len()
        && entries[i].0@ == name && entries[j].0@ == name implies i == j by {
        if i < j {
            assert(entries[i].0@ != entries[j].0@);
        } else if j < i {
            assert(entries[j].0@ != entries[i].0@);
        }
    }
    assert forall|i: int| 0 <= i < entries.len() && entries[i].0@ == name
        implies entries[i].1 == count_named(pairs, name) by {
        assert(tally(pairs).dom().contains(entries[i].0@));
    }
}

/// Whether `entries` is listed in name order, each name once.
pub open spec fn in_name_order(entries: Seq<(String, u64)>) -> bool {
    forall|i: int, j: int| 0 <= i < j < entries.len() ==> name_before(#[trigger] entries[i].0@, #[trigger] entries[j].0@)
}

/// Whether every name in `pairs` adds up to a count that `u64` holds.
pub open spec fn outcomes_fit(pairs: Seq<(String, u64)>) -> bool {
    forall|i: int| #![trigger pairs[i]] 0 <= i < pairs.len() ==> count_named(pairs, pairs[i].0@) <= u64::MAX
}

proof fn lemma_count_named_prefix(pairs: Seq<(String, u64)>, n: int, name: Seq<char>)
    requires
        0 <= n <= pairs.len(),
    ensures
        0 <= count_named(pairs.take(n), name) <= count_named(pairs, name),
    decreases pairs.len(),
{
    if pairs.len() == 0 {
        assert(pairs.take(n) =~= pairs);
    } else if n == pairs.len() {
        assert(pairs.take(n) =~= pairs);
        lemma_count_named_prefix(pairs.drop_last(), n - 1, name);
    } else {
        lemma_count_named_prefix(pairs.drop_last(), n, name);
        assert(pairs.drop_last().take(n) =~= pairs.take(n));
    }
}

/// Where `name` stands in `entries`, or would stand among them: after every entry that
/// comes before it.
fn place_of(entries: &Vec<(String, u64)>, name: &String) -> (k: usize)
    ensures
        k <= entries@.len(),
        forall|a: int| 0 <= a < k ==> name_before(#[trigger] entries@[a].0@, name@),
        k < entries@.len() ==> !name_before(entries@[k as int].0@, name@),
{
    let mut k: usize = 0;
    while k < entries.len()
        invariant
            k <= entries@.len(),
            forall|a: int| 0 <= a < k ==> name_before(#[trigger] entries@[a].0@, name@),
        decreases entries@.len() - k,
    {
        if !comes_before(&entries[k].0, name) {
            return k;
        }
        k = k + 1;
    }
    k
}

/// Counts the outcomes in `pairs` by name: one entry per name, with the sum of the counts
/// it came with, in name order.
pub fn tally_outcomes(pairs: &Vec<(String, u64)>) -> (outcomes: Vec<(String, u64)>)
    requires
        outcomes_fit(pairs@),
    ensures
        lists(outcomes@, tally(pairs@)),
        in_name_order(outcomes@),
{
    let mut out: Vec<(String, u64)> = Vec::new();
    let mut i: usize = 0;
    assert(pairs@.take(0) =~= Seq::<(String, u64)>::empty());
    while i < pairs.len()
        invariant
            i <= pairs@.len(),
            outcomes_fit(pairs@),
            lists(out@, tally(pairs@.take(i as int))),
            in_name_order(out@),
        decreases pairs@.len() - i,
    {
        let ghost before = tally(pairs@.take(i as int));
        let name = &pairs[i].0;
        let count = pairs[i].1;
        let ghost after = tally(pairs@.take(i + 1));
        let ghost sofar = if before.dom().contains(name@) { before[name@] } else { 0 };
        proof {
            assert(pairs@.take(i + 1).drop_last() =~= pairs@.take(i as int));
            assert(pairs@.take(i + 1).last() == pairs@[i as int]);
            assert(after == before.insert(name@, sofar + count));
            lemma_tally_counts_named(pairs@.take(i + 1), name@);
            lemma_count_named_prefix(pairs@, i + 1, name@);
            assert(count_named(pairs@, pairs@[i as int].0@) <= u64::MAX);
            assert(sofar + count <= u64::MAX);
        }
        let k = place_of(&out, name);
        if k < out.len() && out[k].0 == *name {
            proof {
                assert(before.dom().contains(out@[k as int].0@));
            }
            let updated = (out[k].0.clone(), out[k].1 + count);
            let ghost old_out = out@;
            out.set(k, updated);
            proof {
                assert forall|a: int, b: int| 0 <= a < b < out@.len() implies out@[a].0@ != out@[b].0@ by {
                    assert(out@[a].0@ == old_out[a].0@);
                    assert(out@[b].0@ == old_out[b].0@);
                }
                assert forall|a: int, b: int| 0 <= a < b < out@.len()
                    implies name_before(#[trigger] out@[a].0@, #[trigger] out@[b].0@) by {
                    assert(out@[a].0@ == old_out[a].0@);
                    assert(out@[b].0@ == old_out[b].0@);
                    assert(name_before(old_out[a].0@, old_out[b].0@));
                }
                assert forall|a: int| 0 <= a < out@.len() implies #[trigger] after.dom().contains(out@[a].0@)
                    && after[out@[a].0@] == out@[a].1 by {
                    if a != k {
                        assert(old_out[a].0@ != name@);
                    }
                }
                assert forall|n: Seq<char>| #[trigger] after.dom().contains(n)
                    implies exists|a: int| 0 <= a < out@.len() && out@[a].0@ == n by {
                    if n == name@ {
                        assert(out@[k as int].0@ == n);
                    } else {
                        assert(before.dom().contains(n));
                        let a = choose|a: int| 0 <= a < old_out.len() && old_out[a].0@ == n;
                        assert(out@[a].0@ == n);
                    }
                }
            }
        } else {
            let ghost old_out = out@;
            proof {
                // every entry before `k` comes before the name, every other one after it
                assert forall|a: int| 0 <= a < old_out.len() implies
                    if a < k { name_before(#[trigger] old_out[a].0@, name@) } else { name_before(name@, old_out[a].0@) } by {
                    if a >= k {
                        lemma_name_before_total(old_out[k as int].0@, name@);
                        if a > k {
                            assert(name_before(old_out[k as int].0@, old_out[a].0@));
                            lemma_name_before_transitive(name@, old_out[k as int].0@, old_out[a].0@);
                        }
                    }
                }
                assert forall|a: int| 0 <= a < old_out.len() implies #[trigger] old_out[a].0@ != name@ by {
                    lemma_name_before_irreflexive(name@);
                    if a < k {
                        assert(name_before(old_out[a].0@, name@));
                    } else {
                        assert(name_before(name@, old_out[a].0@));
                    }
                }
                if before.dom().contains(name@) {
                    let a = choose|a: int| 0 <= a < out@.len() && out@[a].0@ == name@;
                    assert(old_out[a].0@ != name@);
                }
            }
            out.insert(k, (name.clone(), count));
            proof {
                assert forall|a: int| 0 <= a < out@.len() implies #[trigger] out@[a]
                    == if a < k { old_out[a] } else if a == k { (out@[a].0, count) } else { old_out[a - 1] } by {
                }
                assert(out@[k as int].0@ == name@);
                assert forall|a: int, b: int| 0 <= a < b < out@.len()
                    implies name_before(#[trigger] out@[a].0@, #[trigger] out@[b].0@) by {
                    if b < k {
                        assert(name_before(old_out[a].0@, old_out[b].0@));
                    } else if b == k {
                        assert(name_before(old_out[a].0@, name@));
                    } else if a < k {
                        assert(name_before(old_out[a].0@, name@));
                        assert(name_before(name@, old_out[b - 1].0@));
                        lemma_name_before_transitive(old_out[a].0@, name@, old_out[b - 1].0@);
                    } else if a == k {
                        assert(name_before(name@, old_out[b - 1].0@));
                    } else {
                        assert(name_before(old_out[a - 1].0@, old_out[b - 1].0@));
                    }
                }
                assert forall|a: int, b: int| 0 <= a < b < out@.len() implies out@[a].0@ != out@[b].0@ by {
                    assert(name_before(out@[a].0@, out@[b].0@));
                    lemma_name_before_irreflexive(out@[a].0@);
                }
                assert forall|a: int| 0 <= a < out@.len() implies #[trigger] after.dom().contains(out@[a].0@)
                    && after[out@[a].0@] == out@[a].1 by {
                    if a < k {
                        assert(old_out[a].0@ != name@);
                        assert(before.dom().contains(old_out[a].0@));
                    } else if a > k {
                        assert(old_out[a - 1].0@ != name@);
                        assert(before.dom().contains(old_out[a - 1].0@));
                    }
                }
                assert forall|n: Seq<char>| #[trigger] after.dom().contains(n)
                    implies exists|a: int| 0 <= a < out@.len() && out@[a].0@ == n by {
                    if n == name@ {
                        assert(out@[k as int].0@ == n);
                    } else {
                        assert(before.dom().contains(n));
                        let a = choose|a: int| 0 <= a < old_out.len() && old_out[a].0@ == n;
                        if a < k {
                            assert(out@[a].0@ == n);
                        } else {
                            assert(out@[a + 1].0@ == n);
                        }
                    }
                }
            }
        }
        i = i + 1;
    }
    assert(pairs@.take(pairs@.len() as int) =~= pairs@);
    out
}

/// One phase of a run: a session's report, labelled and placed in time.
///
/// Build it with [`PhaseReport::builder`].
#[derive(Debug, Clone)]
pub struct PhaseReport {
    /// What this phase was, and the name it is tracked under.
    pub label: String,
    /// When the measured work began.
    pub started_at: Timestamp,
    /// How long the phase ran, excluding setup and warm-up, in nanoseconds.
    pub duration_nanos: u128,
    /// Workers the session ran with.
    pub concurrency: u32,
    /// Iterations the schedule called for. Zero outside the open load model.
    pub offered: u64,
    /// Iterations that finished, whether they succeeded or failed.
    pub completed: u64,
    /// Iterations that finished successfully.
    pub ok: u64,
    /// Iterations the schedule called for that no worker was free to take.
    pub dropped: u64,
    /// The rate the phase was configured for, if any.
    pub rate_per_second: Option<u32>,
    /// What set the pace, and so whether this phase's throughput is a result.
    pub pacing: Pacing,
    /// Latency of the iterations that returned one, in nanoseconds.
    pub latency: LatencyStats,
    /// Every outcome the phase saw, by name: statuses and errors in one taxonomy, one
    /// entry per name, in name order.
    pub outcomes: Vec<(String, u64)>,
    /// Completions per second, as `(second_since_start, count)`.
    pub throughput_per_sec: Vec<(u64, u64)>,
    /// Anything about this phase worth carrying into the write-up.
    pub notes: Vec<String>,
}

/// Builder for a [`PhaseReport`]. See [`PhaseReport::builder`].
pub struct PhaseBuilder<'a, L = DisplayStatus> {
    label: String,
    report: &'a BenchReport,
    started_at: Option<Timestamp>,
    status_label: L,
    offered: Option<u64>,
    throughput_per_sec: Vec<(u64, u64)>,
    notes: Vec<String>,
}

impl PhaseReport {
    /// Start building a phase entry from a finished session's report.
    pub fn builder<'a>(label: String, report: &'a BenchReport) -> (b: PhaseBuilder<'a, DisplayStatus>)
        ensures
            b.label_of() == label,
            b.report_of() == *report,
            b.started_at_of() is None,
            b.offered_of() is None,
            b.throughput_of() == Seq::<(u64, u64)>::empty(),
            b.notes_of() == Seq::<String>::empty(),
    {
        PhaseBuilder {
            label,
            report,
            started_at: None,
            status_label: DisplayStatus,
            offered: None,
            throughput_per_sec: Vec::new(),
            notes: Vec::new(),
        }
    }

    /// The count of the outcome named `name`, if the phase saw it.
    pub fn outcome(&self, name: &str) -> (n: Option<u64>)
        ensures
            match n {
                Some(c) => exists|i: int| 0 <= i < self.outcomes@.len()
                    && self.outcomes@[i].0@ == name@ && self.outcomes@[i].1 == c,
                None => forall|i: int| 0 <= i < self.outcomes@.len() ==> self.outcomes@[i].0@ != name@,
            },
    {
        let wanted = String::from_str(name);
        let mut i: usize = 0;
        while i < self.outcomes.len()
            invariant
                i <= self.outcomes@.len(),
                wanted@ == name@,
                forall|k: int| 0 <= k < i ==> self.outcomes@[k].0@ != name@,
            decreases self.outcomes@.len() - i,
        {
            if self.outcomes[i].0 == wanted {
                return Some(self.outcomes[i].1);
            }
            i = i + 1;
        }
        None
    }
}

/// The entry a session's report reduces to.
pub open spec fn phase_of<L: StatusLabel>(b: PhaseBuilder<'_, L>, tail: Percentiles, now: Timestamp, r: PhaseReport) -> bool {
    let report = b.report_of();
    &&& r.label == b.label_of()
    &&& match b.started_at_of() {
        Some(t) => r.started_at == t,
        None => r.started_at@ == earlier_by(now@, report.elapsed as int),
    }
    &&& r.duration_nanos == report.elapsed
    &&& r.concurrency == report.concurrency
    &&& r.offered == match b.offered_of() {
        Some(n) => n,
        None => report.offered,
    }
    &&& r.completed == report.stats.overall.iters + counts_total(report.error_dist@)
    &&& r.ok == success_iters(report.stats.by_status@)
    &&& r.dropped == report.dropped
    &&& r.rate_per_second == report.rate_per_second
    &&& r.pacing == report.pacing
    &&& r.latency == stats_of(report.hist@, report.hist.precision(), tail)
    &&& exists|names: Seq<String>| #![trigger named(names, report.status_dist@)]
        names.len() == report.status_dist@.len()
        && (forall|i: int| 0 <= i < names.len()
            ==> b.status_label_of().names(report.status_dist@[i].0, #[trigger] names[i]@))
        && lists(r.outcomes@, tally(named(names, report.status_dist@) + report.error_dist@))
    &&& in_name_order(r.outcomes@)
    &&& r.throughput_per_sec@ == b.throughput_of()
    &&& r.notes@ == b.notes_of()
}

/// A phase entry carries its session's figures as they were: the drops the session
/// counted, its workers, its duration, what paced it and at what rate, the label it was
/// given, the target declared (or the session's own), every iteration that finished
/// (succeeded or failed) and the successful ones, whatever else the phase says.
pub proof fn lemma_phase_keeps_session_figures<L: StatusLabel>(b: PhaseBuilder<'_, L>, tail: Percentiles, now: Timestamp, r: PhaseReport)
    requires
        phase_of(b, tail, now, r),
    ensures
        r.dropped == b.report_of().dropped,
        r.concurrency == b.report_of().concurrency,
        r.duration_nanos == b.report_of().elapsed,
        r.pacing == b.report_of().pacing,
        r.rate_per_second == b.report_of().rate_per_second,
        r.label == b.label_of(),
        r.offered == (match b.offered_of() { Some(n) => n, None => b.report_of().offered }),
        r.completed == b.report_of().stats.overall.iters + counts_total(b.report_of().error_dist@),
        r.ok == success_iters(b.report_of().stats.by_status@),
        r.latency == stats_of(b.report_of().hist@, b.report_of().hist.precision(), tail),
        r.throughput_per_sec@ == b.throughput_of(),
        r.notes@ == b.notes_of(),
{
}

/// Whether the builder's labelling can name every status of its report.
pub open spec fn labels_all<L: StatusLabel>(b: PhaseBuilder<'_, L>) -> bool {
    forall|i: int| 0 <= i < b.report_of().status_dist@.len()
        ==> b.status_label_of().can_name(#[trigger] b.report_of().status_dist@[i].0)
}

/// Whether a report's totals can be added up in `u64` without overflowing: the errors,
/// the iterations that finished, and the successful ones.
pub open spec fn counts_fit(report: BenchReport) -> bool {
    &&& counts_total(report.error_dist@) <= u64::MAX
    &&& report.stats.overall.iters + counts_total(report.error_dist@) <= u64::MAX
    &&& success_iters(report.stats.by_status@) <= u64::MAX
}

/// Whether the statuses named as `names` name them as the builder's labelling may.
pub open spec fn labelled_as<L: StatusLabel>(b: PhaseBuilder<'_, L>, names: Seq<String>) -> bool {
    &&& names.len() == b.report_of().status_dist@.len()
    &&& forall|i: int| 0 <= i < names.len()
        ==> b.status_label_of().names(b.report_of().status_dist@[i].0, #[trigger] names[i]@)
}

/// Whether, however the builder's labelling names the statuses, the count of every
/// outcome adds up in `u64`.
pub open spec fn outcomes_fit_all<L: StatusLabel>(b: PhaseBuilder<'_, L>) -> bool {
    forall|names: Seq<String>| #![trigger named(names, b.report_of().status_dist@)]
        labelled_as(b, names)
        ==> outcomes_fit(named(names, b.report_of().status_dist@) + b.report_of().error_dist@)
}

/// The sum of the counts that `pairs` gives `name`, which `u128` always holds.
fn count_of(pairs: &Vec<(String, u64)>, name: &String) -> (c: u128)
    ensures
        c == count_named(pairs@, name@),
{
    let mut total: u128 = 0;
    let mut i: usize = 0;
    while i < pairs.len()
        invariant
            i <= pairs@.len(),
            total == count_named(pairs@.take(i as int), name@),
            total <= i * 18446744073709551615u128,
        decreases pairs@.len() - i,
    {
        proof {
            assert(pairs@.take(i + 1).drop_last() =~= pairs@.take(i as int));
            assert(pairs@.take(i + 1).last() == pairs@[i as int]);
        }
        assert(i * 18446744073709551615u128 + 18446744073709551615u128 == (i + 1) * 18446744073709551615u128)
            by (nonlinear_arith);
        assert((i + 1) * 18446744073709551615u128 <= 18446744073709551616u128 * 18446744073709551615u128)
            by (nonlinear_arith)
            requires
                i < pairs@.len(),
                pairs@.len() <= usize::MAX,
        ;
        if pairs[i].0 == *name {
            total = total + pairs[i].1 as u128;
        }
        i = i + 1;
    }
    assert(pairs@.take(pairs@.len() as int) =~= pairs@);
    total
}

/// Whether every name in `pairs` adds up to a count that `u64` holds.
fn fits_by_name(pairs: &Vec<(String, u64)>) -> (b: bool)
    ensures
        b == outcomes_fit(pairs@),
{
    let mut i: usize = 0;
    while i < pairs.len()
        invariant
            i <= pairs@.len(),
            forall|j: int| #![trigger pairs@[j]] 0 <= j < i ==> count_named(pairs@, pairs@[j].0@) <= u64::MAX,
        decreases pairs@.len() - i,
    {
        if count_of(pairs, &pairs[i].0) > u64::MAX as u128 {
            assert(!(count_named(pairs@, pairs@[i as int].0@) <= u64::MAX));
            return false;
        }
        i = i + 1;
    }
    true
}

/// The sum of the counts in a distribution, which `u128` always holds.
fn total_of<K>(dist: &Vec<(K, u64)>) -> (t: u128)
    ensures
        t == counts_total(dist@),
{
    let mut total: u128 = 0;
    let mut i: usize = 0;
    while i < dist.len()
        invariant
            i <= dist@.len(),
            total == counts_total(dist@.take(i as int)),
            total <= i * 18446744073709551615u128,
        decreases dist@.len() - i,
    {
        proof {
            assert(dist@.take(i + 1).drop_last() =~= dist@.take(i as int));
        }
        assert(i * 18446744073709551615u128 + 18446744073709551615u128 == (i + 1) * 18446744073709551615u128)
            by (nonlinear_arith);
        assert((i + 1) * 18446744073709551615u128 <= 18446744073709551616u128 * 18446744073709551615u128)
            by (nonlinear_arith)
            requires
                i < dist@.len(),
                dist@.len() <= usize::MAX,
        ;
        total = total + dist[i].1 as u128;
        i = i + 1;
    }
    assert(dist@.take(dist@.len() as int) =~= dist@);
    total
}

/// Whether a report's counts add up in `u64`, as building a phase entry from it needs.
pub fn report_counts_fit(report: &BenchReport) -> (b: bool)
    ensures
        b == counts_fit(*report),
{
    let errors = total_of(&report.error_dist);
    let successes = report.stats.success_iters();
    errors <= u64::MAX as u128
        && report.stats.overall.iters as u128 <= u64::MAX as u128 - errors
        && successes <= u64::MAX as u128
}

impl<'a, L> PhaseBuilder<'a, L> {
    /// The phase's label.
    pub closed spec fn label_of(&self) -> String {
        self.label
    }

    /// The session report the phase is built from.
    pub closed spec fn report_of(&self) -> BenchReport {
        *self.report
    }

    /// When the measured work began, if it was set.
    pub closed spec fn started_at_of(&self) -> Option<Timestamp> {
        self.started_at
    }

    /// How statuses are named.
    pub closed spec fn status_label_of(&self) -> L {
        self.status_label
    }

    /// The declared target, if one was declared.
    pub closed spec fn offered_of(&self) -> Option<u64> {
        self.offered
    }

    /// The per-second series attached.
    pub closed spec fn throughput_of(&self) -> Seq<(u64, u64)> {
        self.throughput_per_sec@
    }

    /// The notes added, in order.
    pub closed spec fn notes_of(&self) -> Seq<String> {
        self.notes@
    }
}

impl<'a, L: StatusLabel> PhaseBuilder<'a, L> {
    /// When the measured work began.
    ///
    /// Defaults to the time of building minus the session's elapsed time, which is right
    /// for a phase recorded as soon as it finishes.
    pub fn started_at(self, started_at: Timestamp) -> (b: Self)
        ensures
            b.started_at_of() == Some(started_at),
            b.label_of() == self.label_of(),
            b.report_of() == self.report_of(),
            b.status_label_of() == self.status_label_of(),
            b.offered_of() == self.offered_of(),
            b.throughput_of() == self.throughput_of(),
            b.notes_of() == self.notes_of(),
    {
        PhaseBuilder { started_at: Some(started_at), ..self }
    }

    /// How to name an iteration [`Status`] in the outcome taxonomy.
    pub fn status_label<M: StatusLabel>(self, status_label: M) -> (b: PhaseBuilder<'a, M>)
        ensures
            b.status_label_of() == status_label,
            b.label_of() == self.label_of(),
            b.report_of() == self.report_of(),
            b.started_at_of() == self.started_at_of(),
            b.offered_of() == self.offered_of(),
            b.throughput_of() == self.throughput_of(),
            b.notes_of() == self.notes_of(),
    {
        PhaseBuilder {
            label: self.label,
            report: self.report,
            started_at: self.started_at,
            status_label,
            offered: self.offered,
            throughput_per_sec: self.throughput_per_sec,
            notes: self.notes,
        }
    }

    /// Attach a per-second series, normally from the throughput observer's buckets.
    pub fn throughput(self, buckets: Vec<(u64, u64)>) -> (b: Self)
        ensures
            b.throughput_of() == buckets@,
            b.label_of() == self.label_of(),
            b.report_of() == self.report_of(),
            b.started_at_of() == self.started_at_of(),
            b.status_label_of() == self.status_label_of(),
            b.offered_of() == self.offered_of(),
            b.notes_of() == self.notes_of(),
    {
        PhaseBuilder { throughput_per_sec: buckets, ..self }
    }

    /// Declare what the phase was asked to do, when nothing offered it.
    ///
    /// A closed-loop phase has no schedule, but it usually still has a target the caller
    /// knows; declared here, it stands in for the schedule's count.
    pub fn offered(self, offered: u64) -> (b: Self)
        ensures
            b.offered_of() == Some(offered),
            b.label_of() == self.label_of(),
            b.report_of() == self.report_of(),
            b.started_at_of() == self.started_at_of(),
            b.status_label_of() == self.status_label_of(),
            b.throughput_of() == self.throughput_of(),
            b.notes_of() == self.notes_of(),
    {
        PhaseBuilder { offered: Some(offered), ..self }
    }

    /// Add a note. Call it more than once for more than one.
    pub fn note(self, note: String) -> (b: Self)
        ensures
            b.notes_of() == self.notes_of().push(note),
            b.label_of() == self.label_of(),
            b.report_of() == self.report_of(),
            b.started_at_of() == self.started_at_of(),
            b.status_label_of() == self.status_label_of(),
            b.offered_of() == self.offered_of(),
            b.throughput_of() == self.throughput_of(),
    {
        let mut notes = self.notes;
        notes.push(note);
        PhaseBuilder { notes, ..self }
    }

    /// Add several notes at once, after those already added.
    pub fn notes(self, more: Vec<String>) -> (b: Self)
        ensures
            b.notes_of() == self.notes_of() + more@,
            b.label_of() == self.label_of(),
            b.report_of() == self.report_of(),
            b.started_at_of() == self.started_at_of(),
            b.status_label_of() == self.status_label_of(),
            b.offered_of() == self.offered_of(),
            b.throughput_of() == self.throughput_of(),
    {
        let mut notes = self.notes;
        let mut more = more;
        notes.append(&mut more);
        PhaseBuilder { notes, ..self }
    }

    /// The session report the phase is built from.
    pub fn report(&self) -> (r: &'a BenchReport)
        ensures
            *r == self.report_of(),
    {
        self.report
    }

    /// Each status of the report with the name the labelling gives it, then each error.
    fn labelled_pairs(&self) -> (r: (Vec<(String, u64)>, Ghost<Seq<String>>))
        requires
            labels_all(*self),
        ensures
            labelled_as(*self, r.1@),
            r.0@ == named(r.1@, self.report_of().status_dist@) + self.report_of().error_dist@,
    {
        let report = self.report;
        let mut pairs: Vec<(String, u64)> = Vec::new();
        let ghost mut names: Seq<String> = Seq::empty();
        let mut k: usize = 0;
        while k < report.status_dist.len()
            invariant
                k <= report.status_dist@.len(),
                names.len() == k,
                *report == self.report_of(),
                forall|i: int| 0 <= i < report.status_dist@.len()
                    ==> self.status_label.can_name(#[trigger] report.status_dist@[i].0),
                forall|i: int| 0 <= i < k
                    ==> self.status_label.names(report.status_dist@[i].0, #[trigger] names[i]@),
                pairs@ == named(names, report.status_dist@.take(k as int)),
            decreases report.status_dist@.len() - k,
        {
            let name = self.status_label.label(&report.status_dist[k].0);
            proof {
                names = names.push(name);
            }
            pairs.push((name, report.status_dist[k].1));
            assert(pairs@ =~= named(names, report.status_dist@.take(k + 1)));
            k = k + 1;
        }
        assert(report.status_dist@.take(report.status_dist@.len() as int) =~= report.status_dist@);
        let ghost labelled = pairs@;
        let mut e: usize = 0;
        while e < report.error_dist.len()
            invariant
                e <= report.error_dist@.len(),
                pairs@ == labelled + report.error_dist@.take(e as int),
            decreases report.error_dist@.len() - e,
        {
            pairs.push((report.error_dist[e].0.clone(), report.error_dist[e].1));
            assert(pairs@ =~= labelled + report.error_dist@.take(e + 1));
            e = e + 1;
        }
        assert(pairs@ =~= labelled + report.error_dist@);
        (pairs, Ghost(names))
    }

    /// The phase entry, from the statuses and errors as named in `pairs`.
    fn finish(self, tail: &Percentiles, now: Timestamp, pairs: Vec<(String, u64)>, names: Ghost<Seq<String>>) -> (r: PhaseReport)
        requires
            counts_fit(self.report_of()),
            labelled_as(self, names@),
            pairs@ == named(names@, self.report_of().status_dist@) + self.report_of().error_dist@,
            outcomes_fit(pairs@),
        ensures
            phase_of(self, *tail, now, r),
    {
        let report = self.report;
        let mut errors: u64 = 0;
        let mut i: usize = 0;
        while i < report.error_dist.len()
            invariant
                i <= report.error_dist@.len(),
                counts_fit(*report),
                errors == counts_total(report.error_dist@.take(i as int)),
            decreases report.error_dist@.len() - i,
        {
            proof {
                assert(report.error_dist@.take(i + 1).drop_last() =~= report.error_dist@.take(i as int));
                lemma_counts_total_prefix(report.error_dist@, i + 1);
            }
            errors = errors + report.error_dist[i].1;
            i = i + 1;
        }
        assert(report.error_dist@.take(report.error_dist@.len() as int) =~= report.error_dist@);
        let ok = report.stats.success_iters() as u64;
        let outcomes = tally_outcomes(&pairs);
        let started_at = match self.started_at {
            Some(t) => t,
            None => now.earlier_by(report.elapsed),
        };
        let latency = LatencyStats::from_histogram(&report.hist, tail);
        let offered = match self.offered {
            Some(n) => n,
            None => report.offered,
        };
        PhaseReport {
            label: self.label,
            started_at,
            duration_nanos: report.elapsed,
            concurrency: report.concurrency,
            offered,
            completed: report.stats.overall.iters + errors,
            ok,
            dropped: report.dropped,
            rate_per_second: report.rate_per_second,
            pacing: report.pacing,
            latency,
            outcomes,
            throughput_per_sec: self.throughput_per_sec,
            notes: self.notes,
        }
    }

    /// Reduce the session's report into a phase entry, with `tail` the percentiles read off
    /// its latency histogram and `now` the time of building.
    pub fn build_at(self, tail: &Percentiles, now: Timestamp) -> (r: PhaseReport)
        requires
            counts_fit(self.report_of()),
            labels_all(self),
            outcomes_fit_all(self),
        ensures
            phase_of(self, *tail, now, r),
            r.dropped == self.report_of().dropped,
            r.concurrency == self.report_of().concurrency,
            r.duration_nanos == self.report_of().elapsed,
            r.pacing == self.report_of().pacing,
            r.rate_per_second == self.report_of().rate_per_second,
            r.label == self.label_of(),
            r.offered == (match self.offered_of() { Some(n) => n, None => self.report_of().offered }),
            r.completed == self.report_of().stats.overall.iters + counts_total(self.report_of().error_dist@),
            r.ok == success_iters(self.report_of().stats.by_status@),
    {
        let (pairs, names) = self.labelled_pairs();
        proof {
            assert(outcomes_fit(named(names@, self.report_of().status_dist@) + self.report_of().error_dist@));
        }
        self.finish(tail, now, pairs, names)
    }

    /// Reduce the session's report into a phase entry, as [`build_at`](Self::build_at)
    /// does, or give `None` where a count would not fit in `u64`: one of the totals, or
    /// the count of an outcome under the names the labelling gave this time.
    pub fn try_build_at(self, tail: &Percentiles, now: Timestamp) -> (r: Option<PhaseReport>)
        requires
            labels_all(self),
        ensures
            match r {
                Some(p) => counts_fit(self.report_of()) && phase_of(self, *tail, now, p),
                None => !counts_fit(self.report_of())
                    || exists|names: Seq<String>| #![trigger named(names, self.report_of().status_dist@)]
                        labelled_as(self, names)
                        && !outcomes_fit(named(names, self.report_of().status_dist@) + self.report_of().error_dist@),
            },
            r matches Some(p) ==> p.dropped == self.report_of().dropped,
            r matches Some(p) ==> p.concurrency == self.report_of().concurrency,
            r matches Some(p) ==> p.duration_nanos == self.report_of().elapsed,
            r matches Some(p) ==> p.pacing == self.report_of().pacing,
            r matches Some(p) ==> p.rate_per_second == self.report_of().rate_per_second,
            r matches Some(p) ==> p.label == self.label_of(),
            r matches Some(p) ==> p.offered == (match self.offered_of() { Some(n) => n, None => self.report_of().offered }),
            r matches Some(p) ==> p.completed == self.report_of().stats.overall.iters + counts_total(self.report_of().error_dist@),
            r matches Some(p) ==> p.ok == success_iters(self.report_of().stats.by_status@),
    {
        if !report_counts_fit(self.report) {
            return None;
        }
        let (pairs, names) = self.labelled_pairs();
        if !fits_by_name(&pairs) {
            return None;
        }
        Some(self.finish(tail, now, pairs, names))
    }

    /// The time of building, where the phase's start is taken from it: `None` where the
    /// clock cannot be read; an unset start needs it, a set one does not.
    fn build_time(&self) -> (t: Option<Timestamp>)
        ensures
            match t {
                Some(now) => self.started_at_of() is None ==> now.secs_of() >= 0,
                None => self.started_at_of() is None,
            },
    {
        match self.started_at {
            Some(at) => Some(at),
            None => Timestamp::now(),
        }
    }

    /// Reduce the session's report into a phase entry, with `tail` the percentiles read off
    /// its latency histogram; an unset start is taken from the current time. `None` where
    /// the start is unset and the system clock cannot be read.
    pub fn build(self, tail: &Percentiles) -> (r: Option<PhaseReport>)
        requires
            counts_fit(self.report_of()),
            labels_all(self),
            outcomes_fit_all(self),
        ensures
            match r {
                Some(p) => exists|now: Timestamp|
                    (self.started_at_of() is None ==> now.secs_of() >= 0) && phase_of(self, *tail, now, p),
                None => self.started_at_of() is None,
            },
            r matches Some(p) ==> p.dropped == self.report_of().dropped,
            r matches Some(p) ==> p.concurrency == self.report_of().concurrency,
            r matches Some(p) ==> p.duration_nanos == self.report_of().elapsed,
            r matches Some(p) ==> p.pacing == self.report_of().pacing,
            r matches Some(p) ==> p.rate_per_second == self.report_of().rate_per_second,
            r matches Some(p) ==> p.label == self.label_of(),
            r matches Some(p) ==> p.offered == (match self.offered_of() { Some(n) => n, None => self.report_of().offered }),
            r matches Some(p) ==> p.completed == self.report_of().stats.overall.iters + counts_total(self.report_of().error_dist@),
            r matches Some(p) ==> p.ok == success_iters(self.report_of().stats.by_status@),
    {
        match self.build_time() {
            Some(now) => Some(self.build_at(tail, now)),
            None => None,
        }
    }

    /// Reduce the session's report into a phase entry, as [`build`](Self::build) does, or
    /// give `None` where a count would not fit in `u64`, as
    /// [`try_build_at`](Self::try_build_at) says, or where the start is unset and the
    /// system clock cannot be read.
    pub fn try_build(self, tail: &Percentiles) -> (r: Option<PhaseReport>)
        requires
            labels_all(self),
        ensures
            match r {
                Some(p) => counts_fit(self.report_of())
                    && exists|now: Timestamp|
                        (self.started_at_of() is None ==> now.secs_of() >= 0) && phase_of(self, *tail, now, p),
                None => self.started_at_of() is None
                    || !counts_fit(self.report_of())
                    || exists|names: Seq<String>| #![trigger named(names, self.report_of().status_dist@)]
                        labelled_as(self, names)
                        && !outcomes_fit(named(names, self.report_of().status_dist@) + self.report_of().error_dist@),
            },
            r matches Some(p) ==> p.dropped == self.report_of().dropped,
            r matches Some(p) ==> p.concurrency == self.report_of().concurrency,
            r matches Some(p) ==> p.duration_nanos == self.report_of().elapsed,
            r matches Some(p) ==> p.pacing == self.report_of().pacing,
            r matches Some(p) ==> p.rate_per_second == self.report_of().rate_per_second,
            r matches Some(p) ==> p.label == self.label_of(),
            r matches Some(p) ==> p.offered == (match self.offered_of() { Some(n) => n, None => self.report_of().offered }),
            r matches Some(p) ==> p.completed == self.report_of().stats.overall.iters + counts_total(self.report_of().error_dist@),
            r matches Some(p) ==> p.ok == success_iters(self.report_of().stats.by_status@),
    {
        match self.build_time() {
            Some(now) => self.try_build_at(tail, now),
            None => None,
        }
    }
}

/// Everything one invocation measured, in the order it measured it.
///
/// `M` carries whatever the run as a whole was configured for.
#[derive(Debug, Clone)]
pub struct RunReport<M = ()> {
    /// When the run began.
    pub started_at: Timestamp,
    /// What the run as a whole was configured for.
    pub meta: M,
    /// The phases, in the order they were recorded.
    pub phases: Vec<PhaseReport>,
}

impl<M> RunReport<M> {
    /// Start a run now; `None` where the system clock cannot be read.
    pub fn new(meta: M) -> (r: Option<RunReport<M>>)
        ensures
            r matches Some(run) ==> run.meta == meta && run.started_at.secs_of() >= 0
                && run.phases@ == Seq::<PhaseReport>::empty(),
    {
        match Timestamp::now() {
            Some(started_at) => Some(RunReport { started_at, meta, phases: Vec::new() }),
            None => None,
        }
    }

    /// Start a run that began at a known time.
    pub fn started_at(started_at: Timestamp, meta: M) -> (r: RunReport<M>)
        ensures
            r.started_at == started_at,
            r.meta == meta,
            r.phases@ == Seq::<PhaseReport>::empty(),
    {
        RunReport { started_at, meta, phases: Vec::new() }
    }

    /// Record a finished phase, after those recorded before it.
    pub fn record(&mut self, phase: PhaseReport)
        ensures
            final(self).phases@ == old(self).phases@.push(phase),
            final(self).started_at == old(self).started_at,
            final(self).meta == old(self).meta,
    {
        self.phases.push(phase);
    }

    /// The first phase recorded with the given label, if any was.
    pub fn phase(&self, label: &str) -> (p: Option<&PhaseReport>)
        ensures
            match p {
                Some(p) => exists|i: int| 0 <= i < self.phases@.len() && *p == self.phases@[i]
                    && self.phases@[i].label@ == label@
                    && forall|j: int| 0 <= j < i ==> self.phases@[j].label@ != label@,
                None => forall|i: int| 0 <= i < self.phases@.len() ==> self.phases@[i].label@ != label@,
            },
    {
        let wanted = String::from_str(label);
        let mut i: usize = 0;
        while i < self.phases.len()
            invariant
                i <= self.phases@.len(),
                wanted@ == label@,
                forall|k: int| 0 <= k < i ==> self.phases@[k].label@ != label@,
            decreases self.phases@.len() - i,
        {
            if self.phases[i].label == wanted {
                return Some(&self.phases[i]);
            }
            i = i + 1;
        }
        None
    }
}

} // verus!
