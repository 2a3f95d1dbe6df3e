//! Load-testing logic: the open-loop arrival schedule, latency summaries, and the
//! reports a benchmark run is recorded in.
pub mod histogram;
pub mod name_order;
pub mod observer;
pub mod report;
pub mod reporter;
pub mod run;
pub mod schedule;
pub mod stats;
pub mod status;
pub mod timestamp;
