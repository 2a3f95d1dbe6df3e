//! A latency histogram over `hdrhistogram::Histogram`, and the figures a report carries.
//!
//! Latencies are recorded in whole nanoseconds. The histogram keeps three significant
//! figures: what it reports is a function of the values recorded and that precision,
//! which the contracts below name rather than restate.
use vstd::prelude::*;
use vstd::multiset::Multiset;
use hdrhistogram::{CreationError, Histogram, RecordError};
use crate::run::counts_total;

verus! {

/// An `hdrhistogram::Histogram` of `u64` counts, held opaquely.
///
/// `Histogram`'s type parameter is bound by hdrhistogram's own `Counter` trait, so the
/// type is not declared directly; the histogram is held here and reached only through the
/// trusted calls below.
#[verifier::external_body]
#[derive(Debug)]
pub struct HdrHistogram(pub Histogram<u64>);

/// `hdrhistogram::CreationError`, why a histogram could not be made.
#[verifier::external_type_specification]
#[verifier::external_body]
pub struct ExCreationError(CreationError);

/// `hdrhistogram::RecordError`, why a value could not be recorded.
#[verifier::external_type_specification]
#[verifier::external_body]
pub struct ExRecordError(RecordError);

/// The values recorded into a histogram, each as often as it was recorded.
pub uninterp spec fn recorded_values(h: HdrHistogram) -> Multiset<u64>;

/// The limits a histogram was made with: its lowest discernible value and its number of
/// significant figures.
pub uninterp spec fn histogram_precision(h: HdrHistogram) -> (u64, u8);

/// Whether a histogram grows to hold any value recorded into it, as one made by
/// `Histogram::new` does; one made with fixed bounds refuses a value above them.
pub uninterp spec fn histogram_auto_resizes(h: HdrHistogram) -> bool;

/// What `Histogram::min` reports for these recorded values at this precision.
pub uninterp spec fn hdr_min(values: Multiset<u64>, precision: (u64, u8)) -> u64;

/// What `Histogram::max` reports for these recorded values at this precision.
pub uninterp spec fn hdr_max(values: Multiset<u64>, precision: (u64, u8)) -> u64;

/// What `Histogram::mean` reports for these recorded values at this precision, cast to
/// whole nanoseconds.
pub uninterp spec fn hdr_mean(values: Multiset<u64>, precision: (u64, u8)) -> u64;

/// What `Histogram::stdev` reports for these recorded values at this precision, cast to
/// whole nanoseconds.
pub uninterp spec fn hdr_stdev(values: Multiset<u64>, precision: (u64, u8)) -> u64;

/// The `(value_iterated_to, count_since_last_iteration)` pairs that
/// `Histogram::iter_quantiles(ticks)` yields for these recorded values at this precision.
pub uninterp spec fn hdr_quantile_steps(values: Multiset<u64>, precision: (u64, u8), ticks: u32) -> Seq<(u64, u64)>;

/// Calls `Histogram::new(sigfig)`: an auto-resizing histogram with a lowest discernible
/// value of 1. Its source refuses only a `sigfig` above 5; what it returns holds nothing.
#[verifier::external_body]
fn hdr_new(sigfig: u8) -> (r: Result<HdrHistogram, CreationError>)
    ensures
        sigfig <= 5 ==> r is Ok,
        r matches Ok(h) ==> recorded_values(h) == Multiset::<u64>::empty()
            && histogram_precision(h) == (1u64, sigfig)
            && histogram_auto_resizes(h),
{
    Histogram::<u64>::new(sigfig).map(HdrHistogram)
}

/// Calls `Histogram::record`. On success the value is recorded once more. A histogram
/// with fixed bounds refuses a value above them; an auto-resizing one fails only on a
/// resize to a length (a `u32`) that `usize` cannot hold, which cannot happen where
/// `usize` has 32 bits or more. A refusal leaves the histogram as it was. Its source
/// does not panic: a value it has to grow for is above the range it was made with.
#[verifier::external_body]
fn hdr_record(h: &mut HdrHistogram, value: u64) -> (r: Result<(), RecordError>)
    ensures
        histogram_auto_resizes(*old(h)) && usize::BITS >= 32 ==> r is Ok,
        histogram_auto_resizes(*final(h)) == histogram_auto_resizes(*old(h)),
        histogram_precision(*final(h)) == histogram_precision(*old(h)),
        r is Ok ==> recorded_values(*final(h)) == recorded_values(*old(h)).insert(value),
        r is Err ==> recorded_values(*final(h)) == recorded_values(*old(h)),
    no_unwind
{
    h.0.record(value)
}

/// Calls `Histogram::clone`, which its source derives: the copy holds the same values
/// at the same precision.
#[verifier::external_body]
fn hdr_clone(h: &HdrHistogram) -> (c: HdrHistogram)
    ensures
        recorded_values(c) == recorded_values(*h),
        histogram_precision(c) == histogram_precision(*h),
        histogram_auto_resizes(c) == histogram_auto_resizes(*h),
{
    HdrHistogram(h.0.clone())
}

/// Calls `Histogram::len`: the number of values recorded, saturating at `u64::MAX`.
#[verifier::external_body]
fn hdr_len(h: &HdrHistogram) -> (n: u64)
    ensures
        n == if recorded_values(*h).len() > u64::MAX { u64::MAX as nat } else { recorded_values(*h).len() },
{
    h.0.len()
}

/// Calls `Histogram::is_empty`: whether nothing has been recorded.
#[verifier::external_body]
fn hdr_is_empty(h: &HdrHistogram) -> (b: bool)
    ensures
        b == (recorded_values(*h).len() == 0),
{
    h.0.is_empty()
}

/// Calls `Histogram::min`. Its source gives zero when the lowest bucket holds a count,
/// and otherwise the lowest value equivalent to the least non-zero value recorded, so it
/// is never above a recorded value.
#[verifier::external_body]
fn hdr_min_of(h: &HdrHistogram) -> (v: u64)
    ensures
        v == hdr_min(recorded_values(*h), histogram_precision(*h)),
        forall|x: u64| #[trigger] recorded_values(*h).contains(x) ==> v <= x,
{
    h.0.min()
}

/// Calls `Histogram::max`. Its source gives the highest value equivalent to the largest
/// value recorded, so it is never below a recorded value.
#[verifier::external_body]
fn hdr_max_of(h: &HdrHistogram) -> (v: u64)
    ensures
        v == hdr_max(recorded_values(*h), histogram_precision(*h)),
        forall|x: u64| #[trigger] recorded_values(*h).contains(x) ==> x <= v,
{
    h.0.max()
}

/// Calls `Histogram::mean`, cast to whole nanoseconds.
#[verifier::external_body]
fn hdr_mean_of(h: &HdrHistogram) -> (v: u64)
    ensures
        v == hdr_mean(recorded_values(*h), histogram_precision(*h)),
{
    h.0.mean() as u64
}

/// Calls `Histogram::stdev`, cast to whole nanoseconds.
#[verifier::external_body]
fn hdr_stdev_of(h: &HdrHistogram) -> (v: u64)
    ensures
        v == hdr_stdev(recorded_values(*h), histogram_precision(*h)),
{
    h.0.stdev() as u64
}

/// Calls `Histogram::iter_quantiles(ticks)` and keeps of each step the value iterated to
/// and the count since the last step. Its source asserts that `ticks` is positive and
/// multiplies it by at most `2^54` in a `u64`, so a small `ticks` is asked for. It walks
/// the buckets upward, so the values never decrease; a bucket's count goes into one step
/// only, so steps that count something stand at different buckets and their values
/// strictly increase. It stops at the bucket of the largest value, so the counts add up
/// to every value recorded, as long as the count reached at each bucket, as an `f64`
/// quantile, stays below one before that bucket: certain below `2^53` values.
#[verifier::external_body]
fn hdr_quantile_steps_of(h: &HdrHistogram, ticks: u32) -> (steps: Vec<(u64, u64)>)
    requires
        0 < ticks <= 512,
    ensures
        steps@ == hdr_quantile_steps(recorded_values(*h), histogram_precision(*h), ticks),
        forall|i: int, j: int| 0 <= i <= j < steps@.len() ==> #[trigger] steps@[i].0 <= #[trigger] steps@[j].0,
        forall|i: int, j: int| 0 <= i < j < steps@.len() && steps@[i].1 > 0 && steps@[j].1 > 0
            ==> #[trigger] steps@[i].0 < #[trigger] steps@[j].0,
        recorded_values(*h).len() < 0x20_0000_0000_0000 ==> counts_total(steps@) == recorded_values(*h).len(),
{
    h.0.iter_quantiles(ticks).map(|t| (t.value_iterated_to(), t.count_since_last_iteration())).collect()
}

/// The precision every latency histogram is kept at: values from 1 ns, three significant figures.
pub open spec fn latency_precision() -> (u64, u8) {
    (1u64, 3u8)
}

/// Why a latency could not be recorded.
#[derive(Debug)]
pub enum CollectorError {
    /// The latency, in nanoseconds, does not fit the `u64` the histogram records.
    LatencyTooLarge { latency_nanos: u128 },
    /// The histogram refused the value.
    HistogramRecord(RecordError),
}

/// A latency histogram, in nanoseconds, kept to three significant figures.
#[derive(Debug)]
pub struct LatencyHistogram {
    hist: HdrHistogram,
}

impl View for LatencyHistogram {
    type V = Multiset<u64>;

    /// The latencies recorded, in nanoseconds.
    closed spec fn view(&self) -> Multiset<u64> {
        recorded_values(self.hist)
    }
}

impl LatencyHistogram {
    /// Every latency histogram grows to hold whatever it is given.
    #[verifier::type_invariant]
    spec fn grows(self) -> bool {
        histogram_auto_resizes(self.hist)
    }

    /// The limits the histogram was made with; [`latency_precision`] for every histogram
    /// this type makes.
    pub closed spec fn precision(&self) -> (u64, u8) {
        histogram_precision(self.hist)
    }

    /// An empty latency histogram.
    pub fn new() -> (h: LatencyHistogram)
        ensures
            h@ == Multiset::<u64>::empty(),
            h.precision() == latency_precision(),
    {
        // the only refusal is a precision above five figures
        let hist = hdr_new(3).unwrap();
        LatencyHistogram { hist }
    }

    /// Records a latency of `latency_nanos` nanoseconds.
    ///
    /// A latency beyond `u64::MAX` nanoseconds is refused as too large; any other latency
    /// is recorded.
    pub fn record(&mut self, latency_nanos: u128) -> (r: Result<(), CollectorError>)
        ensures
            latency_nanos > u64::MAX ==> (r matches Err(CollectorError::LatencyTooLarge { latency_nanos: l })
                && l == latency_nanos),
            latency_nanos <= u64::MAX ==> r is Ok,
            r is Ok ==> final(self)@ == old(self)@.insert(latency_nanos as u64),
            r is Err ==> final(self)@ == old(self)@,
            final(self).precision() == old(self).precision(),
    {
        proof {
            use_type_invariant(&*self);
        }
        if latency_nanos > u64::MAX as u128 {
            return Err(CollectorError::LatencyTooLarge { latency_nanos });
        }
        match hdr_record(&mut self.hist, latency_nanos as u64) {
            Ok(()) => Ok(()),
            Err(e) => Err(CollectorError::HistogramRecord(e)),
        }
    }

    /// Whether no latency has been recorded.
    pub fn is_empty(&self) -> (b: bool)
        ensures
            b == (self@.len() == 0),
    {
        hdr_is_empty(&self.hist)
    }

    /// The number of latencies recorded, saturating at `u64::MAX`.
    ///
    /// Only iterations that returned a value are recorded, so this is the sample count the
    /// percentiles were computed from, not the number of iterations attempted.
    pub fn len(&self) -> (n: u64)
        ensures
            n == if self@.len() > u64::MAX { u64::MAX as nat } else { self@.len() },
    {
        hdr_len(&self.hist)
    }

    /// The highest recorded latency, in nanoseconds, at the histogram's precision.
    pub fn max(&self) -> (v: u64)
        ensures
            v == hdr_max(self@, self.precision()),
            forall|x: u64| #[trigger] self@.contains(x) ==> x <= v,
    {
        hdr_max_of(&self.hist)
    }

    /// The lowest recorded latency, in nanoseconds, at the histogram's precision.
    pub fn min(&self) -> (v: u64)
        ensures
            v == hdr_min(self@, self.precision()),
            forall|x: u64| #[trigger] self@.contains(x) ==> v <= x,
    {
        hdr_min_of(&self.hist)
    }

    /// The mean of the recorded latencies, in whole nanoseconds.
    pub fn mean(&self) -> (v: u64)
        ensures
            v == hdr_mean(self@, self.precision()),
    {
        hdr_mean_of(&self.hist)
    }

    /// The standard deviation of the recorded latencies, in whole nanoseconds.
    pub fn stdev(&self) -> (v: u64)
        ensures
            v == hdr_stdev(self@, self.precision()),
    {
        hdr_stdev_of(&self.hist)
    }

    /// The histogram the latencies are kept in, for the quantile queries that take a
    /// fractional quantile.
    pub fn histogram(&self) -> (h: &HdrHistogram)
        ensures
            recorded_values(*h) == self@,
            histogram_precision(*h) == self.precision(),
    {
        &self.hist
    }

    /// The latency distribution by quantile levels: `(latency_nanos, count)` at each step
    /// of `iter_quantiles(1)`, leaving out the steps that counted nothing.
    pub fn quantiles(&self) -> (steps: Vec<(u64, u64)>)
        ensures
            steps@ == hdr_quantile_steps(self@, self.precision(), 1).filter(|s: (u64, u64)| s.1 > 0),
            forall|a: int| 0 <= a < steps@.len() ==> #[trigger] steps@[a].1 > 0,
            forall|a: int, b: int| 0 <= a < b < steps@.len() ==> #[trigger] steps@[a].0 < #[trigger] steps@[b].0,
            self@.len() < 0x20_0000_0000_0000 ==> counts_total(steps@) == self@.len(),
    {
        let all = hdr_quantile_steps_of(&self.hist, 1);
        let ghost pred = |s: (u64, u64)| s.1 > 0;
        let mut kept: Vec<(u64, u64)> = Vec::new();
        let mut i: usize = 0;
        assert(all@.take(0) =~= Seq::<(u64, u64)>::empty());
        while i < all.len()
            invariant
                i <= all@.len(),
                pred == (|s: (u64, u64)| s.1 > 0),
                kept@ == all@.take(i as int).filter(pred),
                counts_total(kept@) == counts_total(all@.take(i as int)),
                forall|a: int| 0 <= a < kept@.len() ==> #[trigger] kept@[a].1 > 0,
                forall|a: int, b: int| 0 <= a < b < kept@.len() ==> #[trigger] kept@[a].0 < #[trigger] kept@[b].0,
                forall|a: int, k: int| 0 <= a < kept@.len() && i <= k < all@.len() && all@[k].1 > 0
                    ==> #[trigger] kept@[a].0 < #[trigger] all@[k].0,
                forall|i: int, j: int| 0 <= i < j < all@.len() && all@[i].1 > 0 && all@[j].1 > 0
                    ==> #[trigger] all@[i].0 < #[trigger] all@[j].0,
            decreases all@.len() - i,
        {
            let step = all[i];
            let ghost before = kept@;
            if step.1 > 0 {
                kept.push(step);
                proof {
                    assert(kept@.drop_last() =~= before);
                    assert forall|a: int, k: int| 0 <= a < kept@.len() && i + 1 <= k < all@.len() && all@[k].1 > 0
                        implies #[trigger] kept@[a].0 < #[trigger] all@[k].0 by {
                        if a < before.len() {
                            assert(before[a].0 < all@[k].0);
                        } else {
                            assert(all@[i as int].0 < all@[k].0);
                        }
                    }
                    assert forall|a: int, b: int| 0 <= a < b < kept@.len()
                        implies #[trigger] kept@[a].0 < #[trigger] kept@[b].0 by {
                        if b == before.len() {
                            assert(before[a].0 < all@[i as int].0);
                        }
                    }
                }
            }
            proof {
                reveal(Seq::filter);
                assert(all@.take(i + 1).drop_last() =~= all@.take(i as int));
                assert(all@.take(i + 1).last() == step);
            }
            i = i + 1;
        }
        assert(all@.take(all@.len() as int) =~= all@);
        kept
    }
}

impl Default for LatencyHistogram {
    fn default() -> (h: LatencyHistogram)
        ensures
            h@ == Multiset::<u64>::empty(),
            h.precision() == latency_precision(),
    {
        LatencyHistogram::new()
    }
}

impl Clone for LatencyHistogram {
    fn clone(&self) -> (h: LatencyHistogram)
        ensures
            h@ == self@,
            h.precision() == self.precision(),
    {
        proof {
            use_type_invariant(self);
        }
        LatencyHistogram { hist: hdr_clone(&self.hist) }
    }
}

/// The latency at the quantiles a report carries, in nanoseconds.
///
/// Reading a histogram at a fractional quantile is left to the caller; these are the
/// figures it read.
#[derive(Debug, Clone, Copy, PartialEq, Eq, Structural)]
pub struct Percentiles {
    /// Median.
    pub p50: u64,
    /// 90th percentile.
    pub p90: u64,
    /// 95th percentile.
    pub p95: u64,
    /// 99th percentile.
    pub p99: u64,
}

/// A latency distribution reduced to the figures a report carries, in nanoseconds.
///
/// An empty histogram yields all zeroes rather than an error, so a phase that recorded
/// nothing still reports.
#[derive(Debug, Clone, Copy, PartialEq, Eq, Structural)]
pub struct LatencyStats {
    /// Number of latencies the figures below were computed from.
    pub count: u64,
    /// Lowest recorded latency.
    pub min: u64,
    /// Arithmetic mean of the recorded latencies.
    pub mean: u64,
    /// Standard deviation of the recorded latencies.
    pub stdev: u64,
    /// Median.
    pub p50: u64,
    /// 90th percentile.
    pub p90: u64,
    /// 95th percentile.
    pub p95: u64,
    /// 99th percentile.
    pub p99: u64,
    /// Highest recorded latency.
    pub max: u64,
}

/// All figures zero: what a histogram that recorded nothing reports.
pub open spec fn zero_stats() -> LatencyStats {
    LatencyStats { count: 0, min: 0, mean: 0, stdev: 0, p50: 0, p90: 0, p95: 0, p99: 0, max: 0 }
}

/// The figures of a latency distribution, given the latencies recorded and the
/// percentiles read off them.
pub open spec fn stats_of(values: Multiset<u64>, precision: (u64, u8), tail: Percentiles) -> LatencyStats {
    if values.len() == 0 {
        zero_stats()
    } else {
        LatencyStats {
            count: if values.len() > u64::MAX { u64::MAX } else { values.len() as u64 },
            min: hdr_min(values, precision),
            mean: hdr_mean(values, precision),
            stdev: hdr_stdev(values, precision),
            p50: tail.p50,
            p90: tail.p90,
            p95: tail.p95,
            p99: tail.p99,
            max: hdr_max(values, precision),
        }
    }
}

/// Each percentile of a summary is the percentile of the same rank it was given, and
/// the count is the number of latencies recorded, saturating at `u64::MAX`.
pub proof fn lemma_summary_keeps_each_rank(values: Multiset<u64>, precision: (u64, u8), tail: Percentiles)
    requires
        values.len() > 0,
    ensures
        stats_of(values, precision, tail).p50 == tail.p50,
        stats_of(values, precision, tail).p90 == tail.p90,
        stats_of(values, precision, tail).p95 == tail.p95,
        stats_of(values, precision, tail).p99 == tail.p99,
        stats_of(values, precision, tail).count as int == if values.len() > u64::MAX { u64::MAX as int } else { values.len() as int },
        stats_of(values, precision, tail).min == hdr_min(values, precision),
        stats_of(values, precision, tail).max == hdr_max(values, precision),
        stats_of(values, precision, tail).mean == hdr_mean(values, precision),
        stats_of(values, precision, tail).stdev == hdr_stdev(values, precision),
{
}

/// A phase that recorded nothing still reports: the figures of an empty histogram are
/// all zero, whatever percentiles are given.
pub proof fn lemma_empty_histogram_yields_zeroes(values: Multiset<u64>, precision: (u64, u8), tail: Percentiles)
    requires
        values.len() == 0,
    ensures
        stats_of(values, precision, tail) == zero_stats(),
{
}

/// The count of a summary is the number of latencies recorded, however they came.
pub proof fn lemma_count_is_sample_count(values: Multiset<u64>, precision: (u64, u8), tail: Percentiles)
    requires
        values.len() <= u64::MAX,
    ensures
        stats_of(values, precision, tail).count == values.len(),
{
}

impl Default for LatencyStats {
    fn default() -> (s: LatencyStats)
        ensures
            s == zero_stats(),
    {
        LatencyStats { count: 0, min: 0, mean: 0, stdev: 0, p50: 0, p90: 0, p95: 0, p99: 0, max: 0 }
    }
}

impl LatencyStats {
    /// The figures of `hist`, with `tail` the percentiles read off it; all zero when it
    /// recorded nothing.
    pub fn from_histogram(hist: &LatencyHistogram, tail: &Percentiles) -> (s: LatencyStats)
        ensures
            s == stats_of(hist@, hist.precision(), *tail),
            forall|x: u64| #[trigger] hist@.contains(x) ==> s.min <= x && x <= s.max,
            s.min <= s.max,
            hist@.len() > 0 ==> s.p50 == tail.p50 && s.p90 == tail.p90 && s.p95 == tail.p95
                && s.p99 == tail.p99,
            hist@.len() > 0 ==> s.min == hdr_min(hist@, hist.precision()) && s.max == hdr_max(hist@, hist.precision()),
            hist@.len() > 0 ==> s.mean == hdr_mean(hist@, hist.precision())
                && s.stdev == hdr_stdev(hist@, hist.precision()),
            s.count as int == if hist@.len() > u64::MAX { u64::MAX as int } else { hist@.len() as int },
            hist@.len() == 0 ==> s == (LatencyStats { count: 0, min: 0, mean: 0, stdev: 0, p50: 0, p90: 0, p95: 0, p99: 0, max: 0 }),
    {
        if hist.is_empty() {
            return LatencyStats::default();
        }
        proof {
            let x = hist@.choose();
            assert(hist@.contains(x));
        }
        LatencyStats {
            count: hist.len(),
            min: hist.min(),
            mean: hist.mean(),
            stdev: hist.stdev(),
            p50: tail.p50,
            p90: tail.p90,
            p95: tail.p95,
            p99: tail.p99,
            max: hist.max(),
        }
    }
}

} // verus!
