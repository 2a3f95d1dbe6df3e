# rlt

Load-testing logic, verified with Verus.

- `src/schedule.rs` — the open-loop arrival schedule: what is due at each tick of the
  clock, and how offered and dropped iterations are counted.
- `src/histogram.rs` — the latency histogram (kept in `hdrhistogram`) and the summary
  figures a report carries.
- `src/stats.rs`, `src/status.rs`, `src/report.rs` — per-iteration counters, statuses and
  the session report.
- `src/run.rs` — phase entries built from session reports, and the run they are
  recorded in; `src/name_order.rs` — the order outcome names are listed in.
- `src/reporter/` — which bencher metrics a session or a run publishes, and under which
  names.
- `src/observer.rs` — the per-second completion series.
- `src/timestamp.rs` — wall-clock instants.

`app/` holds what runs around the library: the clock and the dispatching task, the
observers, the float-valued readings of a histogram, and the writers that render bencher
lines and JSON.
