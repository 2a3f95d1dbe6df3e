//! Wall-clock instants, as seconds and nanoseconds since the Unix epoch.
use vstd::prelude::*;
use std::time::{Duration, SystemTime, UNIX_EPOCH};

verus! {

/// Nanoseconds in one second.
pub const NANOS_PER_SECOND: u32 = 1_000_000_000;

/// The longest span, in nanoseconds, that `chrono::TimeDelta` can hold: `i64::MAX`
/// milliseconds. A longer elapsed time does not convert, and counts as none.
pub const MAX_DELTA_NANOS: u128 = 9_223_372_036_854_775_807_000_000;

/// A wall-clock instant: whole seconds since the Unix epoch and the nanoseconds past them.
#[derive(Debug, Clone, Copy, PartialEq, Eq, PartialOrd, Ord, Hash)]
pub struct Timestamp {
    secs: i64,
    nanos: u32,
}

/// `std::time::SystemTime`, an instant of the system clock.
#[verifier::external_type_specification]
#[verifier::external_body]
pub struct ExSystemTime(SystemTime);

/// Calls `SystemTime::now`: what the system clock reads. Which instant that is depends on
/// the clock and is not stated.
#[verifier::external_body]
fn system_now() -> (t: SystemTime) {
    SystemTime::now()
}

/// Calls `SystemTime::duration_since` with the Unix epoch: the span from the epoch to
/// `t`, or `None` where `t` is earlier than the epoch. Which span that is depends on the
/// instant read and is not stated.
#[verifier::external_body]
fn since_unix_epoch(t: &SystemTime) -> (d: Option<Duration>) {
    match t.duration_since(UNIX_EPOCH) {
        Ok(d) => Some(d),
        Err(_) => None,
    }
}

/// Calls `Duration::as_secs`: the whole seconds of a span. A span is not named here, so
/// nothing is stated of them.
#[verifier::external_body]
fn whole_seconds(d: &Duration) -> (s: u64) {
    d.as_secs()
}

/// Calls `Duration::subsec_nanos`: the nanoseconds past the whole seconds, which its
/// documentation says are always below one billion.
#[verifier::external_body]
fn nanos_past_second(d: &Duration) -> (n: u32)
    ensures
        n < NANOS_PER_SECOND,
{
    d.subsec_nanos()
}

impl View for Timestamp {
    type V = int;

    /// Nanoseconds since the Unix epoch.
    closed spec fn view(&self) -> int {
        self.secs * NANOS_PER_SECOND + self.nanos
    }
}

/// The earliest instant a `Timestamp` holds, in nanoseconds since the epoch.
pub open spec fn earliest_instant() -> int {
    i64::MIN * NANOS_PER_SECOND
}

/// The instant `elapsed` nanoseconds before `at`, as `at - TimeDelta::from_std(elapsed)`
/// computes it, with an elapsed time too long for a `TimeDelta` counted as none.
pub open spec fn earlier_by(at: int, elapsed: int) -> int {
    let delta = if elapsed <= MAX_DELTA_NANOS { elapsed } else { 0 };
    if at - delta < earliest_instant() { earliest_instant() } else { at - delta }
}

/// Dated from its start: an instant some elapsed time before another is never later
/// than it, and is earlier by exactly that time when the time converts and the result
/// is representable.
pub proof fn lemma_earlier_by_is_not_later(at: int, elapsed: int)
    requires
        earliest_instant() <= at,
        0 <= elapsed,
    ensures
        earlier_by(at, elapsed) <= at,
        elapsed <= MAX_DELTA_NANOS && earliest_instant() <= at - elapsed ==> earlier_by(at, elapsed) == at - elapsed,
{
}

impl Timestamp {
    #[verifier::type_invariant]
    spec fn nanos_below_a_second(&self) -> bool {
        self.nanos < NANOS_PER_SECOND
    }

    /// The whole seconds since the epoch.
    pub closed spec fn secs_of(&self) -> i64 {
        self.secs
    }

    /// The nanoseconds past the whole seconds.
    pub closed spec fn nanos_of(&self) -> u32 {
        self.nanos
    }

    /// The instant `secs` seconds and `nanos` nanoseconds after the epoch; none when
    /// `nanos` is a second or more.
    pub fn from_unix(secs: i64, nanos: u32) -> (t: Option<Timestamp>)
        ensures
            nanos < NANOS_PER_SECOND <==> t is Some,
            t matches Some(t) ==> t.secs_of() == secs && t.nanos_of() == nanos,
    {
        if nanos < NANOS_PER_SECOND {
            Some(Timestamp { secs, nanos })
        } else {
            None
        }
    }

    /// The instant a span of `secs` seconds and `nanos` nanoseconds after the epoch
    /// reaches; none when the seconds do not fit an `i64` or `nanos` is a second or more.
    pub fn after_epoch(secs: u64, nanos: u32) -> (t: Option<Timestamp>)
        ensures
            t is Some <==> secs <= i64::MAX && nanos < NANOS_PER_SECOND,
            t matches Some(t) ==> t.secs_of() == secs && t.nanos_of() == nanos,
    {
        if secs > i64::MAX as u64 || nanos >= NANOS_PER_SECOND {
            None
        } else {
            Some(Timestamp { secs: secs as i64, nanos })
        }
    }

    /// The current time, read off the system clock; `None` where the clock reads earlier
    /// than the Unix epoch, or so late that the seconds do not fit an `i64`.
    pub fn now() -> (t: Option<Timestamp>)
        ensures
            t matches Some(t) ==> t.secs_of() >= 0,
    {
        let clock = system_now();
        match since_unix_epoch(&clock) {
            Some(span) => Timestamp::after_epoch(whole_seconds(&span), nanos_past_second(&span)),
            None => None,
        }
    }

    /// The whole seconds since the epoch.
    pub fn secs(&self) -> (s: i64)
        ensures
            s == self.secs_of(),
    {
        self.secs
    }

    /// The nanoseconds past the whole seconds, below one second.
    pub fn subsec_nanos(&self) -> (n: u32)
        ensures
            n == self.nanos_of(),
            n < NANOS_PER_SECOND,
    {
        proof {
            use_type_invariant(self);
        }
        self.nanos
    }

    /// The instant `elapsed_nanos` before this one.
    ///
    /// An elapsed time longer than a `chrono::TimeDelta` holds counts as none, and an
    /// instant before the earliest a `Timestamp` holds comes out as that earliest one.
    pub fn earlier_by(&self, elapsed_nanos: u128) -> (t: Timestamp)
        ensures
            t@ == earlier_by(self@, elapsed_nanos as int),
    {
        proof {
            use_type_invariant(self);
        }
        let delta: i128 = if elapsed_nanos <= MAX_DELTA_NANOS { elapsed_nanos as i128 } else { 0 };
        let secs_i: i128 = self.secs as i128;
        assert(-9223372036854775808i128 * 1_000_000_000i128 <= secs_i * 1_000_000_000i128
            <= 9223372036854775807i128 * 1_000_000_000i128) by (nonlinear_arith)
            requires
                -9223372036854775808i128 <= secs_i <= 9223372036854775807i128,
        ;
        let at: i128 = secs_i * 1_000_000_000i128 + self.nanos as i128;
        let earliest: i128 = -9223372036854775808i128 * 1_000_000_000i128;
        let total: i128 = if at - delta < earliest { earliest } else { at - delta };
        // Count from the earliest instant, a whole number of seconds, so the division is
        // over a natural number.
        let from_earliest: u128 = (total - earliest) as u128;
        let whole: u128 = from_earliest / 1_000_000_000u128;
        let rem: u128 = from_earliest % 1_000_000_000u128;
        assert(whole * 1_000_000_000 + rem == from_earliest && rem < 1_000_000_000) by (nonlinear_arith)
            requires
                whole == from_earliest / 1_000_000_000u128,
                rem == from_earliest % 1_000_000_000u128,
        ;
        assert(whole <= 18446744073709551615u128) by (nonlinear_arith)
            requires
                whole * 1_000_000_000 + rem == from_earliest,
                rem >= 0,
                from_earliest <= 18446744073709551615999999999u128,
        ;
        let secs: i64 = (whole as i128 - 9223372036854775808i128) as i64;
        let t = Timestamp { secs, nanos: rem as u32 };
        t
    }
}

} // verus!
