use rlt::report::IterReport;
use rlt::stats::{Counter, IterStats};
use rlt::status::Status;

fn iteration(status: Status, items: u64, bytes: u64, duration: u128) -> IterReport {
    IterReport { duration, status, bytes, items }
}

#[test]
fn iterations_are_counted_overall_and_by_status() {
    let mut stats = IterStats::new();
    stats.record(&iteration(Status::success(0), 1, 10, 100));
    stats.record(&iteration(Status::server_error(5), 2, 20, 200));
    stats.record(&iteration(Status::success(0), 3, 30, 300));

    assert_eq!(stats.overall, Counter { iters: 3, items: 6, bytes: 60, duration: 600 });
    assert_eq!(stats.by_status.len(), 2);
    assert_eq!(stats.by_status[0], (Status::success(0), Counter { iters: 2, items: 4, bytes: 40, duration: 400 }));
    assert_eq!(stats.by_status[1], (Status::server_error(5), Counter { iters: 1, items: 2, bytes: 20, duration: 200 }));
    assert_eq!(stats.success_iters(), 2);
}

#[test]
fn every_successful_status_counts_as_success() {
    let mut stats = IterStats::new();
    stats.record(&iteration(Status::success(0), 1, 0, 1));
    stats.record(&iteration(Status::success(1), 1, 0, 1));
    stats.record(&iteration(Status::client_error(1), 1, 0, 1));
    assert_eq!(stats.success_iters(), 2);
}
