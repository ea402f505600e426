//! Harness for cross-crate benchmarks: the minimal queue interfaces each
//! candidate implements, the tunables of each bench core, and the arithmetic
//! that turns raw measurements into reports.
pub mod report;
pub mod spmc;
pub mod spsc;

pub use report::{loc_delta, LatencyReport};
