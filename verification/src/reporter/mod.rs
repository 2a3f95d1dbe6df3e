//! Benchmark results in the libtest bencher format.
//!
//! The reporters here decide which metrics a report publishes, under which names and
//! with which figures; rendering a figure as text is left to the writer.
pub mod bencher;
pub mod run;

pub use bencher::{BencherLine, BencherReporter, Figure};
pub use run::{BencherRunReporter, JsonRunReporter};
