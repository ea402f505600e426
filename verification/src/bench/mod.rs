//! Support for the low-latency benchmarks: preflight checks on the machine's
//! configuration and the arithmetic of the benchmark harness.
pub mod harness;
pub mod loc;
pub mod preflight;
pub mod tsc;
