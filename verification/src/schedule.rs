//! Open-loop scheduling: an arrival schedule that does not wait for the workers.
//!
//! In the closed model every worker runs one iteration after another, and a rate only
//! caps how fast a free worker may start the next one. In the open model the schedule is
//! authoritative: the number of iterations due is derived from an absolute schedule
//! (`elapsed × rate`), never incremented per tick, and an iteration that finds no free
//! worker is dropped and counted rather than awaited.
//!
//! [`Dispatcher`] holds the decisions of that schedule. The task that owns the clock wakes
//! it once per tick with the elapsed time; the dispatcher releases what is due into the
//! workers' channel and says whether the run goes on.
use vstd::prelude::*;
use vstd::arithmetic::div_mod::lemma_div_is_ordered;
use vstd::arithmetic::mul::lemma_mul_inequality;
use tokio::sync::mpsc::Sender;

verus! {

/// How often the dispatcher wakes to release due work, in nanoseconds (10 ms).
///
/// The absolute schedule means the interval affects only burstiness, never the total.
pub const TICK_NANOS: u64 = 10_000_000;

/// Nanoseconds in one second.
pub const NANOS_PER_SEC: u64 = 1_000_000_000;

/// The largest number of nanoseconds a `std::time::Duration` can hold.
pub const MAX_DURATION_NANOS: u128 = 18_446_744_073_709_551_615_999_999_999;

/// How iterations are paced.
#[derive(Debug, Clone, Copy, PartialEq, Eq, Structural)]
pub enum LoadModel {
    /// Workers run back to back; the rate caps how fast a free worker may start again.
    Closed,
    /// The schedule releases work at the requested rate whether or not a worker is free.
    Open,
}

impl Default for LoadModel {
    fn default() -> (m: LoadModel)
        ensures
            m == LoadModel::Closed,
    {
        LoadModel::Closed
    }
}

/// What set the pace of a run, and therefore whether its throughput is a result.
#[derive(Debug, Clone, Copy, PartialEq, Eq, Structural)]
pub enum Pacing {
    /// The target set the pace: throughput is a property of the system under test.
    Platform,
    /// An arrival schedule set the pace: throughput echoes the requested rate.
    Schedule,
    /// The harness bounded the work: throughput is a property of the driver.
    Harness,
}

impl Default for Pacing {
    fn default() -> (p: Pacing)
        ensures
            p == Pacing::Platform,
    {
        Pacing::Platform
    }
}

/// Counts of what the open-loop schedule asked for and what it could not place.
///
/// Both are zero in the closed model, where the schedule never asks for more than the
/// workers can take. No more can ever have been dropped than offered.
#[derive(Debug)]
pub struct ScheduleCounters {
    offered: u64,
    dropped: u64,
}

impl ScheduleCounters {
    /// Iterations the schedule called for.
    pub closed spec fn offered_count(&self) -> nat {
        self.offered as nat
    }

    /// Iterations no worker was free to take.
    pub closed spec fn dropped_count(&self) -> nat {
        self.dropped as nat
    }

    #[verifier::type_invariant]
    spec fn never_more_dropped_than_offered(&self) -> bool {
        self.dropped <= self.offered
    }

    /// Counters with nothing offered and nothing dropped.
    pub fn new() -> (c: ScheduleCounters)
        ensures
            c.offered_count() == 0,
            c.dropped_count() == 0,
    {
        ScheduleCounters { offered: 0, dropped: 0 }
    }

    /// Iterations the schedule called for.
    pub fn offered(&self) -> (n: u64)
        ensures
            n == self.offered_count(),
    {
        self.offered
    }

    /// Iterations no worker was free to take — the shortfall.
    ///
    /// A non-zero value means the requested rate was not delivered.
    pub fn dropped(&self) -> (n: u64)
        ensures
            n == self.dropped_count(),
            n <= self.offered_count(),
    {
        proof {
            use_type_invariant(self);
        }
        self.dropped
    }

    /// Count one offered iteration, dropped unless a worker accepted it.
    fn count_offer(&mut self, accepted: bool)
        requires
            old(self).offered_count() < u64::MAX,
        ensures
            final(self).offered_count() == old(self).offered_count() + 1,
            final(self).dropped_count() == old(self).dropped_count() + if accepted { 0int } else { 1int },
    {
        proof {
            use_type_invariant(&*self);
        }
        self.offered = self.offered + 1;
        if !accepted {
            self.dropped = self.dropped + 1;
        }
    }
}

impl Clone for ScheduleCounters {
    fn clone(&self) -> (c: ScheduleCounters)
        ensures
            c.offered_count() == self.offered_count(),
            c.dropped_count() == self.dropped_count(),
    {
        proof {
            use_type_invariant(self);
        }
        ScheduleCounters { offered: self.offered, dropped: self.dropped }
    }
}

impl Default for ScheduleCounters {
    fn default() -> (c: ScheduleCounters)
        ensures
            c.offered_count() == 0,
            c.dropped_count() == 0,
    {
        ScheduleCounters::new()
    }
}

/// Iterations due by the end of the tick that starts `elapsed` nanoseconds into the run.
///
/// Message `k` is due at `k / rate` seconds. A tick releases everything that comes due
/// before the next one, so the count is `ceil((elapsed + TICK) × rate)`, taken from the
/// clock and never from the number of ticks seen.
pub open spec fn due_by(elapsed: int, rate: int) -> int {
    ((elapsed + TICK_NANOS) * rate + (NANOS_PER_SEC - 1)) / (NANOS_PER_SEC as int)
}

/// What the schedule has released once a tick at `elapsed` is handled: what is due,
/// saturated at `u64::MAX` and capped by the iteration limit.
pub open spec fn release_target(elapsed: int, rate: int, iterations: Option<u64>) -> int {
    let due = if due_by(elapsed, rate) > u64::MAX { u64::MAX as int } else { due_by(elapsed, rate) };
    match iterations {
        Some(n) => if due > n { n as int } else { due },
        None => due,
    }
}

/// The schedule is absolute: what is due never shrinks as the clock moves on, so a late
/// tick releases everything an on-time one would have.
pub proof fn lemma_schedule_is_monotone(e1: int, e2: int, rate: int, iterations: Option<u64>)
    requires
        0 <= e1 <= e2,
        0 <= rate,
    ensures
        due_by(e1, rate) <= due_by(e2, rate),
        release_target(e1, rate, iterations) <= release_target(e2, rate, iterations),
{
    lemma_mul_inequality(e1 + TICK_NANOS, e2 + TICK_NANOS, rate);
    lemma_div_is_ordered(
        (e1 + TICK_NANOS) * rate + (NANOS_PER_SEC - 1),
        (e2 + TICK_NANOS) * rate + (NANOS_PER_SEC - 1),
        NANOS_PER_SEC as int,
    );
}

/// What a tick releases is exactly the messages due before the next tick: message `k`,
/// due `k / rate` seconds into the run, is counted by the tick at `elapsed` exactly when
/// `k / rate` seconds come before `elapsed` plus one tick.
pub proof fn lemma_due_is_what_comes_due(elapsed: int, rate: int, k: int)
    requires
        0 <= elapsed,
        0 <= rate,
        0 <= k,
    ensures
        k < due_by(elapsed, rate) <==> k * NANOS_PER_SEC < (elapsed + TICK_NANOS) * rate,
{
    let x = (elapsed + TICK_NANOS) * rate;
    let d = NANOS_PER_SEC as int;
    assert(x >= 0) by (nonlinear_arith)
        requires
            0 <= elapsed,
            0 <= rate,
            x == (elapsed + TICK_NANOS) * rate,
    ;
    let q = (x + (d - 1)) / d;
    assert(due_by(elapsed, rate) == q);
    assert(k < q <==> k * d < x) by (nonlinear_arith)
        requires
            d == 1_000_000_000,
            x >= 0,
            k >= 0,
            q == (x + (d - 1)) / d,
    ;
}

/// The sending half of the workers' queue, `tokio::sync::mpsc::Sender`.
#[verifier::external_type_specification]
#[verifier::external_body]
#[verifier::reject_recursive_types(T)]
pub struct ExSender<T>(Sender<T>);

/// What the schedule has released after handling ticks at the elapsed times `ticks`, one
/// after another, from nothing released: each tick brings the count up to what is due by
/// then, and never takes it down.
pub open spec fn released_after(ticks: Seq<int>, rate: int, iterations: Option<u64>) -> int
    decreases ticks.len(),
{
    if ticks.len() == 0 {
        0
    } else {
        let before = released_after(ticks.drop_last(), rate, iterations);
        let target = release_target(ticks.last(), rate, iterations);
        if before < target { target } else { before }
    }
}

/// No drift: when ticks come in time order, what has been released depends only on the
/// time of the latest tick, not on how many ticks there were or how late they came.
pub proof fn lemma_no_drift(ticks: Seq<int>, rate: int, iterations: Option<u64>)
    requires
        ticks.len() > 0,
        rate >= 0,
        forall|i: int, j: int| 0 <= i <= j < ticks.len() ==> 0 <= #[trigger] ticks[i] <= #[trigger] ticks[j],
    ensures
        released_after(ticks, rate, iterations) == release_target(ticks.last(), rate, iterations),
    decreases ticks.len(),
{
    let last = ticks.last();
    assert(0 <= last);
    assert(0 <= (last + TICK_NANOS) * rate) by (nonlinear_arith)
        requires
            0 <= last,
            0 <= rate,
    ;
    if ticks.len() > 1 {
        let rest = ticks.drop_last();
        assert forall|i: int, j: int| 0 <= i <= j < rest.len() implies 0 <= #[trigger] rest[i] <= #[trigger] rest[j] by {
            assert(rest[i] == ticks[i]);
            assert(rest[j] == ticks[j]);
        }
        lemma_no_drift(rest, rate, iterations);
        assert(rest.last() == ticks[ticks.len() - 2]);
        lemma_schedule_is_monotone(rest.last(), last, rate, iterations);
    } else {
        assert(ticks.drop_last().len() == 0);
        assert(released_after(ticks.drop_last(), rate, iterations) == 0);
        assert(due_by(last, rate) >= 0);
    }
}

/// How many offers in `offers` no worker took.
pub open spec fn refused(offers: Seq<(u64, bool)>) -> nat
    decreases offers.len(),
{
    if offers.len() == 0 {
        0
    } else {
        refused(offers.drop_last()) + if offers.last().1 { 0nat } else { 1nat }
    }
}

/// Whether `offers` holds the offers of the sequence numbers `0..` in order, each with
/// whether a worker took it.
pub open spec fn dense_offers(offers: Seq<(u64, bool)>) -> bool {
    forall|i: int| 0 <= i < offers.len() ==> #[trigger] offers[i].0 == i
}

/// A shortfall is a refusal: some offer was refused exactly when the refusals counted are
/// more than none, and there are never more refusals than offers.
pub proof fn lemma_refusals_are_offers(offers: Seq<(u64, bool)>)
    ensures
        refused(offers) <= offers.len(),
        refused(offers) > 0 <==> exists|i: int| 0 <= i < offers.len() && !offers[i].1,
    decreases offers.len(),
{
    if offers.len() > 0 {
        let rest = offers.drop_last();
        lemma_refusals_are_offers(rest);
        if exists|i: int| 0 <= i < rest.len() && !rest[i].1 {
            let i = choose|i: int| 0 <= i < rest.len() && !rest[i].1;
            assert(offers[i] == rest[i]);
        }
        if exists|i: int| 0 <= i < offers.len() && !offers[i].1 {
            let i = choose|i: int| 0 <= i < offers.len() && !offers[i].1;
            if i < rest.len() {
                assert(rest[i] == offers[i]);
            } else {
                assert(offers.last() == offers[i]);
            }
        }
    }
}

/// Offer iteration `seq` to the workers without waiting: the sequence number offered,
/// and whether a worker's queue took it.
///
/// Calls `tokio::sync::mpsc::Sender::try_send` with `seq`. Whether the queue has room
/// depends on the workers, so nothing is promised of the answer.
#[verifier::external_body]
fn try_offer(tx: &Sender<u64>, seq: u64) -> (answer: (u64, bool))
    ensures
        answer.0 == seq,
{
    (seq, tx.try_send(seq).is_ok())
}

/// The decisions of the open-loop schedule.
///
/// Holds the requested rate, the limits the run ends at, how many iterations have been
/// released so far, and the counters. The task that owns the clock calls [`tick`] once per
/// tick; the sequence numbers it hands the workers are dense, start at zero and come in
/// order, and every one of them is counted as offered, and as dropped when no worker took it.
/// A tick is [`next_release`], then one [`settle_offer`] per offer with the queue's answer,
/// which carries the sequence number actually handed to the queue.
///
/// [`tick`]: Dispatcher::tick
/// [`next_release`]: Dispatcher::next_release
/// [`settle_offer`]: Dispatcher::settle_offer
pub struct Dispatcher {
    rate_per_second: u32,
    duration_nanos: Option<u128>,
    iterations: Option<u64>,
    released: u64,
    counters: ScheduleCounters,
    offers: Ghost<Seq<(u64, bool)>>,
}

impl Dispatcher {
    #[verifier::type_invariant]
    spec fn released_is_offered(&self) -> bool {
        &&& self.counters.offered_count() == self.released
        &&& self.offers@.len() == self.released
        &&& dense_offers(self.offers@)
        &&& self.counters.dropped_count() == refused(self.offers@)
        &&& self.iterations matches Some(n) ==> self.released <= n
    }

    /// The requested rate, in iterations per second.
    pub closed spec fn rate(&self) -> nat {
        self.rate_per_second as nat
    }

    /// The clock time after which nothing more is released, if any.
    pub closed spec fn duration_limit(&self) -> Option<u128> {
        self.duration_nanos
    }

    /// The number of iterations after which nothing more is released, if any.
    pub closed spec fn iteration_limit(&self) -> Option<u64> {
        self.iterations
    }

    /// Iterations released so far; the next sequence number handed out.
    pub closed spec fn released_count(&self) -> nat {
        self.released as nat
    }

    /// The offers made to the workers so far, in order: each sequence number handed to the
    /// queue, with whether a worker took it.
    pub closed spec fn offers(&self) -> Seq<(u64, bool)> {
        self.offers@
    }

    /// Iterations no worker was free to take so far.
    pub closed spec fn dropped_count(&self) -> nat {
        self.counters.dropped_count()
    }

    /// A schedule at `rate_per_second` that ends after `duration_nanos` of clock time or
    /// `iterations` releases, whichever comes first.
    pub fn new(rate_per_second: u32, duration_nanos: Option<u128>, iterations: Option<u64>) -> (d: Dispatcher)
        ensures
            d.rate() == rate_per_second,
            d.duration_limit() == duration_nanos,
            d.iteration_limit() == iterations,
            d.released_count() == 0,
            d.offers() == Seq::<(u64, bool)>::empty(),
            d.dropped_count() == 0,
    {
        Dispatcher {
            rate_per_second,
            duration_nanos,
            iterations,
            released: 0,
            counters: ScheduleCounters::new(),
            offers: Ghost(Seq::empty()),
        }
    }

    /// Handle one tick of the clock, `elapsed_nanos` into the run.
    ///
    /// Returns false, releasing nothing, when the rate is zero or the duration has passed.
    /// Otherwise it offers every iteration that the absolute schedule says is due and has
    /// not yet been released, each under the next sequence number, without ever waiting
    /// for a worker; an offer no worker takes is counted as dropped. It then returns false
    /// when the iteration limit has been reached, and true while the run goes on.
    pub fn tick(&mut self, tx: &Sender<u64>, elapsed_nanos: u128) -> (go_on: bool)
        requires
            elapsed_nanos <= MAX_DURATION_NANOS,
        ensures
            final(self).rate() == old(self).rate(),
            final(self).duration_limit() == old(self).duration_limit(),
            final(self).iteration_limit() == old(self).iteration_limit(),
            old(self).rate() == 0 || (old(self).duration_limit() matches Some(d) && elapsed_nanos >= d)
                ==> !go_on && final(self).released_count() == old(self).released_count()
                    && final(self).dropped_count() == old(self).dropped_count(),
            !(old(self).rate() == 0 || (old(self).duration_limit() matches Some(d) && elapsed_nanos >= d))
                ==> {
                &&& final(self).released_count() == if old(self).released_count()
                    < release_target(elapsed_nanos as int, old(self).rate() as int, old(self).iteration_limit()) {
                    release_target(elapsed_nanos as int, old(self).rate() as int, old(self).iteration_limit())
                } else {
                    old(self).released_count() as int
                }
                &&& go_on == !(old(self).iteration_limit() matches Some(n) && final(self).released_count() >= n)
            },
            old(self).dropped_count() <= final(self).dropped_count(),
            final(self).dropped_count() - old(self).dropped_count()
                <= final(self).released_count() - old(self).released_count(),
            final(self).offers().len() == final(self).released_count(),
            final(self).offers().take(old(self).released_count() as int) == old(self).offers(),
            dense_offers(final(self).offers()),
            final(self).dropped_count() == refused(final(self).offers()),
    {
        proof {
            use_type_invariant(&*self);
        }
        let target = match self.next_release(elapsed_nanos) {
            Some(t) => t,
            None => return false,
        };
        let ghost first = *self;
        proof {
            assert(self.offers().take(first.released_count() as int) =~= self.offers());
        }
        while self.released < target
            invariant
                self.rate() == first.rate(),
                self.duration_limit() == first.duration_limit(),
                self.iteration_limit() == first.iteration_limit(),
                first.released_count() <= self.released_count() <= target,
                target <= u64::MAX,
                first.iteration_limit() matches Some(n) ==> target <= n,
                self.offers().take(first.released_count() as int) == first.offers(),
                first.dropped_count() <= self.dropped_count(),
                self.dropped_count() - first.dropped_count() <= self.released_count() - first.released_count(),
            decreases target - self.released_count(),
        {
            proof {
                use_type_invariant(&*self);
            }
            let answer = try_offer(tx, self.released);
            let ghost before = self.offers();
            self.settle_offer(answer);
            proof {
                assert(self.offers().take(first.released_count() as int)
                    =~= before.take(first.released_count() as int));
            }
        }
        proof {
            use_type_invariant(&*self);
        }
        !self.limit_reached()
    }

    /// Where the tick at `elapsed_nanos` leaves the releases: `None` when the run is over,
    /// because the rate is zero or the duration has passed; otherwise how many iterations
    /// will have been released once every one the absolute schedule says is due is offered.
    pub fn next_release(&self, elapsed_nanos: u128) -> (target: Option<u64>)
        requires
            elapsed_nanos <= MAX_DURATION_NANOS,
        ensures
            target is None <==> (self.rate() == 0 || (self.duration_limit() matches Some(d) && elapsed_nanos >= d)),
            target matches Some(t) ==> t == if self.released_count()
                < release_target(elapsed_nanos as int, self.rate() as int, self.iteration_limit()) {
                release_target(elapsed_nanos as int, self.rate() as int, self.iteration_limit())
            } else {
                self.released_count() as int
            },
    {
        if self.rate_per_second == 0 {
            return None;
        }
        if let Some(d) = self.duration_nanos {
            if elapsed_nanos >= d {
                return None;
            }
        }
        let due = self.due_at(elapsed_nanos);
        if self.released < due {
            Some(due)
        } else {
            Some(self.released)
        }
    }

    /// Settle the offer of the next sequence number, [`released_count`], with the queue's
    /// `answer`: the sequence number handed to the queue, which must be that one, and
    /// whether a worker's queue took it. The offer is counted as offered, and as dropped
    /// unless it was taken.
    ///
    /// [`released_count`]: Dispatcher::released_count
    pub fn settle_offer(&mut self, answer: (u64, bool))
        requires
            answer.0 == old(self).released_count(),
            old(self).released_count() < u64::MAX,
            old(self).iteration_limit() matches Some(n) ==> old(self).released_count() < n,
        ensures
            final(self).rate() == old(self).rate(),
            final(self).duration_limit() == old(self).duration_limit(),
            final(self).iteration_limit() == old(self).iteration_limit(),
            final(self).released_count() == old(self).released_count() + 1,
            final(self).offers() == old(self).offers().push(answer),
            final(self).dropped_count() == old(self).dropped_count() + if answer.1 { 0int } else { 1int },
    {
        let accepted = answer.1;
        proof {
            use_type_invariant(&*self);
        }
        let mut counters = self.counters.clone();
        counters.count_offer(accepted);
        let ghost offers = self.offers@.push(answer);
        proof {
            assert(offers.drop_last() =~= self.offers@);
            assert forall|i: int| 0 <= i < offers.len() implies #[trigger] offers[i].0 == i by {
                if i < self.offers@.len() {
                    assert(offers[i] == self.offers@[i]);
                }
            }
        }
        *self = Dispatcher {
            rate_per_second: self.rate_per_second,
            duration_nanos: self.duration_nanos,
            iterations: self.iterations,
            released: self.released + 1,
            counters,
            offers: Ghost(offers),
        };
    }

    /// Whether the iteration limit, if any, has been released.
    pub fn limit_reached(&self) -> (b: bool)
        ensures
            b == (self.iteration_limit() matches Some(n) && self.released_count() >= n),
    {
        match self.iterations {
            Some(n) => self.released >= n,
            None => false,
        }
    }

    /// What the schedule calls for by the end of the tick at `elapsed_nanos`.
    fn due_at(&self, elapsed_nanos: u128) -> (due: u64)
        requires
            elapsed_nanos <= MAX_DURATION_NANOS,
        ensures
            due == release_target(elapsed_nanos as int, self.rate() as int, self.iteration_limit()),
    {
        let rate = self.rate_per_second as u128;
        assert((elapsed_nanos + TICK_NANOS) * rate <= (MAX_DURATION_NANOS + TICK_NANOS) * 4294967295u128)
            by (nonlinear_arith)
            requires
                elapsed_nanos <= MAX_DURATION_NANOS,
                rate <= 4294967295u128,
        ;
        let scaled: u128 = (elapsed_nanos + TICK_NANOS as u128) * rate;
        let whole: u128 = (scaled + (NANOS_PER_SEC - 1) as u128) / NANOS_PER_SEC as u128;
        let due: u64 = if whole > u64::MAX as u128 { u64::MAX } else { whole as u64 };
        match self.iterations {
            Some(n) => if due > n { n } else { due },
            None => due,
        }
    }

    /// The counters of what was offered and what was dropped so far.
    pub fn counters(&self) -> (c: ScheduleCounters)
        ensures
            c.offered_count() == self.released_count(),
            c.dropped_count() == self.dropped_count(),
    {
        proof {
            use_type_invariant(self);
        }
        self.counters.clone()
    }
}

} // verus!
