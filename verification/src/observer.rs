//! The per-second completion series a throughput observer keeps.
//!
//! An observer records, for each completed iteration, how far into the run it finished.
//! The series it reports collapses those offsets into whole seconds.
use vstd::prelude::*;
use crate::run::counts_total;
use crate::schedule::MAX_DURATION_NANOS;
use std::collections::BTreeMap;
use vstd::std_specs::iter::IteratorSpec;
use vstd::std_specs::cmp::OrdSpec;

verus! {

broadcast use vstd::std_specs::btree::group_btree_axioms, vstd::laws_cmp::group_laws_cmp;

/// The whole second an offset of `nanos` nanoseconds falls in.
pub open spec fn second_of(nanos: u128) -> int {
    nanos as int / 1_000_000_000
}

/// How many of `offsets` fall in second `sec`.
pub open spec fn completions_in(offsets: Seq<u128>, sec: int) -> int
    decreases offsets.len(),
{
    if offsets.len() == 0 {
        0
    } else {
        completions_in(offsets.drop_last(), sec) + if second_of(offsets.last()) == sec { 1int } else { 0int }
    }
}

/// `buckets` is the per-second series of `offsets`: seconds strictly ascending, each with
/// the number of offsets in it, and every second that holds an offset present.
pub open spec fn is_series_of(buckets: Seq<(u64, u64)>, offsets: Seq<u128>) -> bool {
    &&& forall|i: int, j: int| 0 <= i < j < buckets.len() ==> buckets[i].0 < buckets[j].0
    &&& forall|i: int| 0 <= i < buckets.len() ==> #[trigger] buckets[i].1 == completions_in(offsets, buckets[i].0 as int)
        && buckets[i].1 > 0
    &&& forall|k: int| 0 <= k < offsets.len() ==> exists|i: int| 0 <= i < buckets.len()
        && buckets[i].0 == second_of(#[trigger] offsets[k])
}

proof fn lemma_completions_in_push(offsets: Seq<u128>, x: u128, sec: int)
    ensures
        completions_in(offsets.push(x), sec) == completions_in(offsets, sec)
            + if second_of(x) == sec { 1int } else { 0int },
{
    assert(offsets.push(x).drop_last() =~= offsets);
}

proof fn lemma_completions_in_bounded(offsets: Seq<u128>, sec: int)
    ensures
        0 <= completions_in(offsets, sec) <= offsets.len(),
        completions_in(offsets, sec) > 0 ==> exists|k: int| 0 <= k < offsets.len() && second_of(offsets[k]) == sec,
    decreases offsets.len(),
{
    if offsets.len() > 0 {
        lemma_completions_in_bounded(offsets.drop_last(), sec);
        if completions_in(offsets.drop_last(), sec) > 0 {
            let k = choose|k: int| 0 <= k < offsets.drop_last().len() && second_of(offsets.drop_last()[k]) == sec;
            assert(offsets[k] == offsets.drop_last()[k]);
        } else if second_of(offsets.last()) == sec {
            assert(offsets[offsets.len() - 1] == offsets.last());
        }
    }
}

spec fn sum_completions(offsets: Seq<u128>, buckets: Seq<(u64, u64)>) -> int
    decreases buckets.len(),
{
    if buckets.len() == 0 {
        0
    } else {
        sum_completions(offsets, buckets.drop_last()) + completions_in(offsets, buckets.last().0 as int)
    }
}

spec fn hits(x: u128, buckets: Seq<(u64, u64)>) -> int
    decreases buckets.len(),
{
    if buckets.len() == 0 {
        0
    } else {
        hits(x, buckets.drop_last()) + if buckets.last().0 == second_of(x) { 1int } else { 0int }
    }
}

proof fn lemma_hits_once(x: u128, buckets: Seq<(u64, u64)>)
    requires
        forall|i: int, j: int| 0 <= i < j < buckets.len() ==> buckets[i].0 < buckets[j].0,
    ensures
        hits(x, buckets) == if exists|i: int| 0 <= i < buckets.len() && buckets[i].0 == second_of(x) { 1int } else { 0int },
    decreases buckets.len(),
{
    if buckets.len() > 0 {
        let rest = buckets.drop_last();
        assert forall|i: int, j: int| 0 <= i < j < rest.len() implies rest[i].0 < rest[j].0 by {
            assert(rest[i] == buckets[i]);
            assert(rest[j] == buckets[j]);
        }
        lemma_hits_once(x, rest);
        if exists|i: int| 0 <= i < rest.len() && rest[i].0 == second_of(x) {
            let i = choose|i: int| 0 <= i < rest.len() && rest[i].0 == second_of(x);
            assert(buckets[i] == rest[i]);
            assert(buckets[i].0 < buckets[buckets.len() - 1].0);
        }
        if exists|i: int| 0 <= i < buckets.len() && buckets[i].0 == second_of(x) {
            let i = choose|i: int| 0 <= i < buckets.len() && buckets[i].0 == second_of(x);
            if i < rest.len() {
                assert(rest[i] == buckets[i]);
            }
        }
    }
}

proof fn lemma_sum_completions_push(offsets: Seq<u128>, x: u128, buckets: Seq<(u64, u64)>)
    ensures
        sum_completions(offsets.push(x), buckets) == sum_completions(offsets, buckets) + hits(x, buckets),
    decreases buckets.len(),
{
    if buckets.len() > 0 {
        lemma_sum_completions_push(offsets, x, buckets.drop_last());
        lemma_completions_in_push(offsets, x, buckets.last().0 as int);
    }
}

proof fn lemma_sum_completions_covers(offsets: Seq<u128>, buckets: Seq<(u64, u64)>)
    requires
        forall|i: int, j: int| 0 <= i < j < buckets.len() ==> buckets[i].0 < buckets[j].0,
        forall|k: int| 0 <= k < offsets.len() ==> exists|i: int| 0 <= i < buckets.len()
            && buckets[i].0 == second_of(#[trigger] offsets[k]),
    ensures
        sum_completions(offsets, buckets) == offsets.len(),
    decreases offsets.len(),
{
    if offsets.len() == 0 {
        lemma_sum_completions_empty(offsets, buckets);
    } else {
        let rest = offsets.drop_last();
        let x = offsets.last();
        assert forall|k: int| 0 <= k < rest.len() implies exists|i: int| 0 <= i < buckets.len()
            && buckets[i].0 == second_of(#[trigger] rest[k]) by {
            assert(rest[k] == offsets[k]);
        }
        lemma_sum_completions_covers(rest, buckets);
        assert(rest.push(x) =~= offsets);
        lemma_sum_completions_push(rest, x, buckets);
        lemma_hits_once(x, buckets);
        assert(offsets[offsets.len() - 1] == x);
    }
}

proof fn lemma_sum_completions_empty(offsets: Seq<u128>, buckets: Seq<(u64, u64)>)
    requires
        offsets.len() == 0,
    ensures
        sum_completions(offsets, buckets) == 0,
    decreases buckets.len(),
{
    if buckets.len() > 0 {
        lemma_sum_completions_empty(offsets, buckets.drop_last());
    }
}

proof fn lemma_counts_total_is_sum(offsets: Seq<u128>, buckets: Seq<(u64, u64)>)
    requires
        forall|i: int| 0 <= i < buckets.len() ==> #[trigger] buckets[i].1 == completions_in(offsets, buckets[i].0 as int),
    ensures
        counts_total(buckets) == sum_completions(offsets, buckets),
    decreases buckets.len(),
{
    if buckets.len() > 0 {
        let rest = buckets.drop_last();
        assert forall|i: int| 0 <= i < rest.len() implies #[trigger] rest[i].1 == completions_in(offsets, rest[i].0 as int) by {
            assert(rest[i] == buckets[i]);
        }
        lemma_counts_total_is_sum(offsets, rest);
        assert(buckets[buckets.len() - 1] == buckets.last());
    }
}

/// Every completion is counted, once: the counts of a per-second series add up to the
/// number of completions it was made from.
pub proof fn lemma_series_counts_every_completion(buckets: Seq<(u64, u64)>, offsets: Seq<u128>)
    requires
        is_series_of(buckets, offsets),
    ensures
        counts_total(buckets) == offsets.len(),
{
    lemma_counts_total_is_sum(offsets, buckets);
    lemma_sum_completions_covers(offsets, buckets);
}

proof fn lemma_completions_in_positive(offsets: Seq<u128>, k: int)
    requires
        0 <= k < offsets.len(),
    ensures
        completions_in(offsets, second_of(offsets[k])) > 0,
    decreases offsets.len(),
{
    let rest = offsets.drop_last();
    if k < rest.len() {
        assert(rest[k] == offsets[k]);
        lemma_completions_in_positive(rest, k);
        lemma_completions_in_bounded(offsets, second_of(offsets[k]));
    } else {
        lemma_completions_in_bounded(rest, second_of(offsets[k]));
    }
}

proof fn lemma_series_holds_its_seconds(a: Seq<(u64, u64)>, b: Seq<(u64, u64)>, offsets: Seq<u128>, i: int)
    requires
        is_series_of(a, offsets),
        is_series_of(b, offsets),
        0 <= i < a.len(),
    ensures
        exists|j: int| 0 <= j < b.len() && b[j].0 == a[i].0,
{
    assert(a[i].1 == completions_in(offsets, a[i].0 as int));
    lemma_completions_in_bounded(offsets, a[i].0 as int);
    let k = choose|k: int| 0 <= k < offsets.len() && second_of(offsets[k]) == a[i].0;
    let j = choose|j: int| 0 <= j < b.len() && b[j].0 == second_of(#[trigger] offsets[k]);
}

/// The series of a set of completions is unique: two series of the same offsets are the
/// same series.
pub proof fn lemma_series_is_unique(a: Seq<(u64, u64)>, b: Seq<(u64, u64)>, offsets: Seq<u128>)
    requires
        is_series_of(a, offsets),
        is_series_of(b, offsets),
    ensures
        a == b,
{
    assert forall|i: int| 0 <= i < a.len() && i < b.len() implies #[trigger] a[i].0 == b[i].0 by {
        lemma_series_keys_agree(a, b, offsets, i);
    }
    if a.len() > b.len() {
        let n = b.len() as int;
        lemma_series_holds_its_seconds(a, b, offsets, n);
        let j = choose|j: int| 0 <= j < b.len() && b[j].0 == a[n].0;
        assert(a[j].0 == b[j].0);
    } else if b.len() > a.len() {
        let n = a.len() as int;
        lemma_series_holds_its_seconds(b, a, offsets, n);
        let j = choose|j: int| 0 <= j < a.len() && a[j].0 == b[n].0;
        assert(a[j].0 == b[j].0);
    }
    assert forall|i: int| 0 <= i < a.len() implies a[i] == b[i] by {
        assert(a[i].0 == b[i].0);
        assert(a[i].1 == completions_in(offsets, a[i].0 as int));
        assert(b[i].1 == completions_in(offsets, b[i].0 as int));
    }
    assert(a =~= b);
}

proof fn lemma_series_keys_agree(a: Seq<(u64, u64)>, b: Seq<(u64, u64)>, offsets: Seq<u128>, i: int)
    requires
        is_series_of(a, offsets),
        is_series_of(b, offsets),
        0 <= i < a.len(),
        i < b.len(),
    ensures
        a[i].0 == b[i].0,
    decreases i,
{
    assert forall|j: int| 0 <= j < i implies #[trigger] a[j].0 == b[j].0 by {
        lemma_series_keys_agree(a, b, offsets, j);
    }
    if a[i].0 < b[i].0 {
        lemma_series_holds_its_seconds(a, b, offsets, i);
        let j = choose|j: int| 0 <= j < b.len() && b[j].0 == a[i].0;
        if j < i {
            assert(a[j].0 == b[j].0);
        }
    } else if b[i].0 < a[i].0 {
        lemma_series_holds_its_seconds(b, a, offsets, i);
        let j = choose|j: int| 0 <= j < a.len() && a[j].0 == b[i].0;
        if j < i {
            assert(a[j].0 == b[j].0);
        }
    }
}

/// The entries of `counts` as `(key, value)` pairs, in ascending key order.
fn series_from(counts: &BTreeMap<u64, u64>) -> (buckets: Vec<(u64, u64)>)
    ensures
        forall|i: int, j: int| 0 <= i < j < buckets@.len() ==> buckets@[i].0 < buckets@[j].0,
        forall|i: int| 0 <= i < buckets@.len() ==> #[trigger] counts@.contains_key(buckets@[i].0)
            && counts@[buckets@[i].0] == buckets@[i].1,
        forall|s: u64| #[trigger] counts@.contains_key(s) ==> exists|i: int| 0 <= i < buckets@.len() && buckets@[i].0 == s,
{
    let mut buckets: Vec<(u64, u64)> = Vec::new();
    assert(vstd::std_specs::btree::key_obeys_cmp_spec::<u64>());
    let iter = counts.iter();
    let ghost items = iter.remaining();
    for (k, v) in it: iter
        invariant
            buckets@.len() == it.index(),
            it.seq() == items,
            forall|i: int| 0 <= i < it.index() ==> #[trigger] buckets@[i] == (*items[i].0, *items[i].1),
    {
        buckets.push((*k, *v));
    }
    let ghost keys = items.map_values(|kv: (&u64, &u64)| *kv.0);
    assert(vstd::std_specs::btree::increasing_seq(keys));
    assert(buckets@.len() == items.len());
    assert forall|i: int, j: int| 0 <= i < j < buckets@.len() implies buckets@[i].0 < buckets@[j].0 by {
        assert(keys[i].cmp_spec(&keys[j]) is Less);
        assert(keys[i] == buckets@[i].0 && keys[j] == buckets@[j].0);
    }
    assert forall|s: u64| #[trigger] counts@.contains_key(s) implies exists|i: int| 0 <= i < buckets@.len() && buckets@[i].0 == s by {
        assert(items.contains((&s, &counts@[s])));
        let i = choose|i: int| 0 <= i < items.len() && items[i] == (&s, &counts@[s]);
        assert(buckets@[i].0 == s);
    }
    buckets
}

/// How many of `offsets` fall in each second that holds one.
fn seconds_counted(offsets: &Vec<u128>) -> (counts: BTreeMap<u64, u64>)
    requires
        forall|k: int| 0 <= k < offsets@.len() ==> #[trigger] offsets@[k] <= MAX_DURATION_NANOS,
    ensures
        forall|s: u64| #[trigger] counts@.contains_key(s) <==> completions_in(offsets@, s as int) > 0,
        forall|s: u64| #[trigger] counts@.contains_key(s) ==> counts@[s] == completions_in(offsets@, s as int),
{
    let mut counts: BTreeMap<u64, u64> = BTreeMap::new();
    let mut n: usize = 0;
    assert(offsets@.take(0) =~= Seq::<u128>::empty());
    while n < offsets.len()
        invariant
            n <= offsets@.len(),
            forall|k: int| 0 <= k < offsets@.len() ==> #[trigger] offsets@[k] <= MAX_DURATION_NANOS,
            forall|s: u64| #[trigger] counts@.contains_key(s) <==> completions_in(offsets@.take(n as int), s as int) > 0,
            forall|s: u64| #[trigger] counts@.contains_key(s) ==> counts@[s] == completions_in(offsets@.take(n as int), s as int),
        decreases offsets@.len() - n,
    {
        let ghost seen = offsets@.take(n as int);
        let ghost now_seen = offsets@.take(n + 1);
        let nanos = offsets[n];
        assert(nanos / 1_000_000_000 <= 18446744073709551615u128) by (nonlinear_arith)
            requires
                nanos <= 18446744073709551615999999999u128,
        ;
        let sec: u64 = (nanos / 1_000_000_000) as u64;
        proof {
            assert(now_seen =~= seen.push(nanos));
            assert forall|s: int| completions_in(now_seen, s) == completions_in(seen, s)
                + if second_of(nanos) == s { 1int } else { 0int } by {
                lemma_completions_in_push(seen, nanos, s);
            }
            lemma_completions_in_bounded(now_seen, sec as int);
            lemma_completions_in_bounded(seen, sec as int);
        }
        let sofar: u64 = match counts.get(&sec) {
            Some(c) => *c,
            None => 0,
        };
        counts.insert(sec, sofar + 1);
        proof {
            assert forall|s: u64| #[trigger] counts@.contains_key(s) <==> completions_in(now_seen, s as int) > 0 by {
                lemma_completions_in_bounded(seen, s as int);
            }
        }
        n = n + 1;
    }
    assert(offsets@.take(offsets@.len() as int) =~= offsets@);
    counts
}

/// Completions collapsed into `(second_since_start, count)` pairs.
///
/// `offsets` holds, in nanoseconds, how far into the run each iteration completed.
/// Seconds are ascending, and seconds in which nothing completed are absent rather than
/// zero, so the series stays short when a run is sparse.
pub fn per_second_counts(offsets: &Vec<u128>) -> (buckets: Vec<(u64, u64)>)
    requires
        forall|k: int| 0 <= k < offsets@.len() ==> #[trigger] offsets@[k] <= MAX_DURATION_NANOS,
    ensures
        is_series_of(buckets@, offsets@),
{
    let counts = seconds_counted(offsets);
    let buckets = series_from(&counts);
    proof {
        assert forall|i: int| 0 <= i < buckets@.len() implies #[trigger] buckets@[i].1
            == completions_in(offsets@, buckets@[i].0 as int) && buckets@[i].1 > 0 by {
            assert(counts@.contains_key(buckets@[i].0));
        }
        assert forall|k: int| 0 <= k < offsets@.len() implies exists|i: int| 0 <= i < buckets@.len()
            && buckets@[i].0 == second_of(#[trigger] offsets@[k]) by {
            lemma_completions_in_positive(offsets@, k);
            let nanos = offsets@[k];
            assert(nanos / 1_000_000_000 <= 18446744073709551615u128) by (nonlinear_arith)
                requires
                    nanos <= 18446744073709551615999999999u128,
            ;
            assert(second_of(nanos) <= u64::MAX);
            let s = second_of(nanos) as u64;
            assert(s as int == second_of(nanos));
            assert(counts@.contains_key(s));
            let i = choose|i: int| 0 <= i < buckets@.len() && buckets@[i].0 == s;
            assert(buckets@[i].0 == second_of(offsets@[k]));
        }
    }
    buckets
}

} // verus!
