//! The open-loop schedule, driven tick by tick the way its dispatching task drives it.
use rlt::schedule::{Dispatcher, LoadModel, Pacing, ScheduleCounters, TICK_NANOS};
use tokio::sync::mpsc;

/// Tick every 10ms from the start of the run until the dispatcher stops or `until_nanos`
/// of clock time has passed, handing each tick the elapsed time; `drain` empties the queue
/// after every tick, as a consumer that keeps up would. Returns what the queue delivered.
fn drive(dispatcher: &mut Dispatcher, capacity: usize, drain: bool, until_nanos: u128) -> Vec<u64> {
    let (tx, mut rx) = mpsc::channel::<u64>(capacity);
    let mut seen = Vec::new();
    let mut elapsed: u128 = 0;
    while elapsed < until_nanos {
        let go_on = dispatcher.tick(&tx, elapsed);
        if drain {
            while let Ok(seq) = rx.try_recv() {
                seen.push(seq);
            }
        }
        if !go_on {
            break;
        }
        elapsed += TICK_NANOS as u128;
    }
    drop(tx);
    while let Ok(seq) = rx.try_recv() {
        seen.push(seq);
    }
    seen
}

const SECOND: u128 = 1_000_000_000;

/// Ten per second for ten seconds is a hundred, whatever the consumer does.
#[test]
fn offers_what_the_schedule_calls_for() {
    let mut d = Dispatcher::new(10, Some(10 * SECOND), None);
    let seen = drive(&mut d, 4096, true, u128::MAX);
    let counters = d.counters();

    assert_eq!(counters.offered(), 100, "offered must be rate x elapsed");
    assert_eq!(counters.dropped(), 0, "a consumer that keeps up must lose nothing");
    assert_eq!(seen, (0..100).collect::<Vec<_>>(), "sequence must be dense and in order");
}

/// The regression test for the whole module: a stalled consumer must make the
/// dispatcher drop and count, never slow the schedule down.
#[test]
fn a_stalled_consumer_causes_drops_not_throttling() {
    let mut d = Dispatcher::new(10, Some(10 * SECOND), None);
    drive(&mut d, 1, false, u128::MAX);
    let counters = d.counters();

    assert_eq!(counters.offered(), 100, "the schedule must keep pace regardless");
    assert_eq!(counters.dropped(), 99, "the shortfall must be counted, not absorbed");
}

/// A late tick must release everything the absolute schedule says is due, so the
/// total never drifts with the tick interval.
#[test]
fn a_rate_far_above_the_tick_interval_still_adds_up() {
    let mut d = Dispatcher::new(5000, Some(2 * SECOND), None);
    let seen = drive(&mut d, 65536, true, u128::MAX);

    assert_eq!(d.counters().offered(), 10_000);
    assert_eq!(seen.len(), 10_000);
}

#[test]
fn an_iteration_limit_ends_the_schedule_early() {
    let mut d = Dispatcher::new(10, Some(600 * SECOND), Some(25));
    drive(&mut d, 4096, true, u128::MAX);

    assert_eq!(d.counters().offered(), 25, "the iteration limit caps the schedule");
}

#[test]
fn cancellation_stops_the_schedule() {
    let mut d = Dispatcher::new(10, Some(600 * SECOND), None);
    // Cancelled after a second: the dispatching task stops ticking.
    drive(&mut d, 4096, true, SECOND);

    let offered = d.counters().offered();
    assert!(offered < 20, "cancelled after ~1s, got {offered}");
}

#[test]
fn a_zero_rate_offers_nothing() {
    let mut d = Dispatcher::new(0, Some(10 * SECOND), None);
    drive(&mut d, 1, false, u128::MAX);

    assert_eq!(d.counters().offered(), 0);
}

#[test]
fn a_late_tick_releases_everything_due() {
    let (tx, mut rx) = mpsc::channel::<u64>(1024);
    let mut d = Dispatcher::new(100, None, None);
    assert!(d.tick(&tx, 0));
    assert_eq!(d.counters().offered(), 1);
    // The next tick comes half a second late: everything due by then is released at once.
    assert!(d.tick(&tx, 500_000_000));
    assert_eq!(d.counters().offered(), 51);
    // A tick whose clock reads earlier releases nothing more.
    assert!(d.tick(&tx, 100_000_000));
    assert_eq!(d.counters().offered(), 51);
    let mut seen = Vec::new();
    while let Ok(seq) = rx.try_recv() {
        seen.push(seq);
    }
    assert_eq!(seen, (0..51).collect::<Vec<_>>());
}

#[test]
fn the_duration_ends_the_schedule_before_anything_is_released() {
    let (tx, _rx) = mpsc::channel::<u64>(16);
    let mut d = Dispatcher::new(10, Some(SECOND), None);
    assert!(!d.tick(&tx, SECOND));
    assert_eq!(d.counters().offered(), 0);
}

#[test]
fn counters_start_at_zero() {
    let c = ScheduleCounters::default();
    assert_eq!((c.offered(), c.dropped()), (0, 0));
    assert_eq!(LoadModel::default(), LoadModel::Closed);
    assert_eq!(Pacing::default(), Pacing::Platform);
}

/// A tick taken step by step: the release target, then each answer settled in turn.
#[test]
fn each_refused_offer_is_a_drop() {
    let mut d = Dispatcher::new(100, None, Some(5));
    assert_eq!(d.next_release(0), Some(1));
    assert_eq!(d.next_release(40_000_000), Some(5));
    d.settle_offer((0, true));
    d.settle_offer((1, false));
    d.settle_offer((2, true));
    assert_eq!(d.counters().offered(), 3);
    assert_eq!(d.counters().dropped(), 1);
    assert!(!d.limit_reached());
    d.settle_offer((3, false));
    d.settle_offer((4, false));
    assert!(d.limit_reached());
    assert_eq!(d.counters().dropped(), 3);
    assert_eq!(d.next_release(1_000_000_000), Some(5));
}
