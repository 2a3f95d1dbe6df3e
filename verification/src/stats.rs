//! Per-iteration counters, overall and by status.
use vstd::prelude::*;
use crate::report::IterReport;
use crate::status::{Status, StatusKind};

verus! {

/// Totals over a set of iterations.
#[derive(Debug, Clone, Copy, PartialEq, Eq, Structural)]
pub struct Counter {
    /// Iterations counted.
    pub iters: u64,
    /// Items the iterations processed.
    pub items: u64,
    /// Bytes the iterations processed.
    pub bytes: u64,
    /// Time the iterations took, in nanoseconds.
    pub duration: u128,
}

/// Whether a counter can take one more iteration's figures without overflowing.
pub open spec fn can_count(c: Counter, r: IterReport) -> bool {
    &&& c.iters < u64::MAX
    &&& c.items + r.items <= u64::MAX
    &&& c.bytes + r.bytes <= u64::MAX
    &&& c.duration + r.duration <= u128::MAX
}

/// A counter after one more iteration.
pub open spec fn counted(c: Counter, r: IterReport) -> Counter {
    Counter {
        iters: (c.iters + 1) as u64,
        items: (c.items + r.items) as u64,
        bytes: (c.bytes + r.bytes) as u64,
        duration: (c.duration + r.duration) as u128,
    }
}

impl Counter {
    /// A counter with nothing counted.
    pub fn new() -> (c: Counter)
        ensures
            c == (Counter { iters: 0, items: 0, bytes: 0, duration: 0 }),
    {
        Counter { iters: 0, items: 0, bytes: 0, duration: 0 }
    }

    /// Count one more iteration.
    pub fn add(&mut self, r: &IterReport)
        requires
            can_count(*old(self), *r),
        ensures
            *final(self) == counted(*old(self), *r),
            final(self).iters == old(self).iters + 1,
            final(self).items == old(self).items + r.items,
            final(self).bytes == old(self).bytes + r.bytes,
            final(self).duration == old(self).duration + r.duration,
    {
        self.iters = self.iters + 1;
        self.items = self.items + r.items;
        self.bytes = self.bytes + r.bytes;
        self.duration = self.duration + r.duration;
    }
}

impl Default for Counter {
    fn default() -> (c: Counter)
        ensures
            c == (Counter { iters: 0, items: 0, bytes: 0, duration: 0 }),
    {
        Counter::new()
    }
}

/// Iteration statistics: totals over every iteration, and per status.
#[derive(Debug, Clone)]
pub struct IterStats {
    /// Totals over every iteration.
    pub overall: Counter,
    /// Totals per status, one entry per status seen, in the order first seen.
    pub by_status: Vec<(Status, Counter)>,
}

/// The iterations counted under a successful status.
pub open spec fn success_iters(by_status: Seq<(Status, Counter)>) -> int
    decreases by_status.len(),
{
    if by_status.len() == 0 {
        0
    } else {
        success_iters(by_status.drop_last()) + if by_status.last().0.kind_of() == StatusKind::Success {
            by_status.last().1.iters as int
        } else {
            0
        }
    }
}

/// An entry whose status is not a success adds nothing to the successes; a successful
/// one adds the iterations it counted.
pub proof fn lemma_only_successes_count(by_status: Seq<(Status, Counter)>, entry: (Status, Counter))
    ensures
        entry.0.kind_of() != StatusKind::Success ==> success_iters(by_status.push(entry)) == success_iters(by_status),
        entry.0.kind_of() == StatusKind::Success
            ==> success_iters(by_status.push(entry)) == success_iters(by_status) + entry.1.iters,
{
    assert(by_status.push(entry).drop_last() =~= by_status);
}

/// Statistics that counted no successful status count no successes, and the successes
/// never exceed the iterations counted under every status.
pub proof fn lemma_successes_bounded(by_status: Seq<(Status, Counter)>)
    ensures
        (forall|i: int| 0 <= i < by_status.len() ==> #[trigger] by_status[i].0.kind_of() != StatusKind::Success)
            ==> success_iters(by_status) == 0,
        0 <= success_iters(by_status),
    decreases by_status.len(),
{
    if by_status.len() > 0 {
        let rest = by_status.drop_last();
        lemma_successes_bounded(rest);
        if forall|i: int| 0 <= i < by_status.len() ==> #[trigger] by_status[i].0.kind_of() != StatusKind::Success {
            assert forall|i: int| 0 <= i < rest.len() implies #[trigger] rest[i].0.kind_of() != StatusKind::Success by {
                assert(rest[i] == by_status[i]);
            }
            assert(by_status[by_status.len() - 1] == by_status.last());
        }
    }
}

proof fn lemma_success_iters_update(by_status: Seq<(Status, Counter)>, i: int, entry: (Status, Counter))
    requires
        0 <= i < by_status.len(),
    ensures
        success_iters(by_status.update(i, entry)) == success_iters(by_status)
            - (if by_status[i].0.kind_of() == StatusKind::Success { by_status[i].1.iters as int } else { 0int })
            + (if entry.0.kind_of() == StatusKind::Success { entry.1.iters as int } else { 0int }),
    decreases by_status.len(),
{
    let updated = by_status.update(i, entry);
    if i == by_status.len() - 1 {
        assert(updated.drop_last() =~= by_status.drop_last());
    } else {
        assert(updated.drop_last() =~= by_status.drop_last().update(i, entry));
        lemma_success_iters_update(by_status.drop_last(), i, entry);
    }
}

/// Where `status` is first counted in `by_status`, if it is.
pub open spec fn status_index(by_status: Seq<(Status, Counter)>, status: Status) -> Option<int> {
    if exists|i: int| 0 <= i < by_status.len() && by_status[i].0 == status {
        Some(choose|i: int| 0 <= i < by_status.len() && by_status[i].0 == status
            && forall|j: int| 0 <= j < i ==> by_status[j].0 != status)
    } else {
        None
    }
}

impl IterStats {
    /// Statistics over no iterations.
    pub fn new() -> (s: IterStats)
        ensures
            s.overall == (Counter { iters: 0, items: 0, bytes: 0, duration: 0 }),
            s.by_status@ == Seq::<(Status, Counter)>::empty(),
    {
        IterStats { overall: Counter::new(), by_status: Vec::new() }
    }

    /// Count one iteration, overall and under its status.
    ///
    /// The first entry for the iteration's status takes it; a status not seen before gets
    /// an entry of its own at the end.
    pub fn record(&mut self, r: &IterReport)
        requires
            can_count(old(self).overall, *r),
            forall|i: int| 0 <= i < old(self).by_status@.len() ==> can_count(#[trigger] old(self).by_status@[i].1, *r),
        ensures
            final(self).overall == counted(old(self).overall, *r),
            final(self).overall.iters == old(self).overall.iters + 1,
            final(self).overall.items == old(self).overall.items + r.items,
            final(self).overall.bytes == old(self).overall.bytes + r.bytes,
            final(self).overall.duration == old(self).overall.duration + r.duration,
            match status_index(old(self).by_status@, r.status) {
                Some(i) => final(self).by_status@ == old(self).by_status@.update(
                    i,
                    (r.status, counted(old(self).by_status@[i].1, *r)),
                ),
                None => final(self).by_status@ == old(self).by_status@.push(
                    (r.status, counted(Counter { iters: 0, items: 0, bytes: 0, duration: 0 }, *r)),
                ),
            },
            success_iters(final(self).by_status@) == success_iters(old(self).by_status@)
                + if r.status.kind_of() == StatusKind::Success { 1int } else { 0int },
    {
        self.overall.add(r);
        let mut i: usize = 0;
        while i < self.by_status.len()
            invariant
                i <= self.by_status@.len(),
                self.by_status@ == old(self).by_status@,
                self.overall == counted(old(self).overall, *r),
                can_count(old(self).overall, *r),
                forall|j: int| 0 <= j < old(self).by_status@.len() ==> can_count(#[trigger] old(self).by_status@[j].1, *r),
                forall|j: int| 0 <= j < i ==> self.by_status@[j].0 != r.status,
            decreases self.by_status@.len() - i,
        {
            if self.by_status[i].0 == r.status {
                let mut entry = self.by_status[i].1;
                entry.add(r);
                self.by_status.set(i, (r.status, entry));
                proof {
                    lemma_success_iters_update(old(self).by_status@, i as int, (r.status, entry));
                    assert(exists|k: int| 0 <= k < old(self).by_status@.len() && old(self).by_status@[k].0 == r.status);
                    let c = status_index(old(self).by_status@, r.status)->0;
                    assert(c == i as int) by {
                        if c < i {
                        } else if c > i {
                        }
                    }
                }
                return;
            }
            i = i + 1;
        }
        let mut fresh = Counter::new();
        fresh.add(r);
        proof {
            lemma_only_successes_count(self.by_status@, (r.status, fresh));
        }
        self.by_status.push((r.status, fresh));
    }

    /// The iterations counted under a successful status.
    pub fn success_iters(&self) -> (n: u128)
        ensures
            n == success_iters(self.by_status@),
    {
        let mut total: u128 = 0;
        let mut i: usize = 0;
        while i < self.by_status.len()
            invariant
                i <= self.by_status@.len(),
                total == success_iters(self.by_status@.take(i as int)),
                total <= i * 18446744073709551615u128,
            decreases self.by_status@.len() - i,
        {
            proof {
                assert(self.by_status@.take(i + 1).drop_last() =~= self.by_status@.take(i as int));
            }
            assert(i * 18446744073709551615u128 + 18446744073709551615u128 == (i + 1) * 18446744073709551615u128)
                by (nonlinear_arith);
            assert((i + 1) * 18446744073709551615u128 <= 18446744073709551616u128 * 18446744073709551615u128)
                by (nonlinear_arith)
                requires
                    i < self.by_status@.len(),
                    self.by_status@.len() <= usize::MAX,
            ;
            if self.by_status[i].0.kind() == StatusKind::Success {
                total = total + self.by_status[i].1.iters as u128;
            }
            i = i + 1;
        }
        assert(self.by_status@.take(self.by_status@.len() as int) =~= self.by_status@);
        total
    }
}

impl Default for IterStats {
    fn default() -> (s: IterStats)
        ensures
            s.overall == (Counter { iters: 0, items: 0, bytes: 0, duration: 0 }),
            s.by_status@ == Seq::<(Status, Counter)>::empty(),
    {
        IterStats::new()
    }
}

} // verus!
