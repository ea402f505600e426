//! Bounded lock-free-style queue and cell primitives: an SPSC FIFO ring, an
//! SPMC broadcast ring with lap detection, and a single-writer sequence lock,
//! together with the arithmetic and text helpers used by the benchmark tooling.
pub mod bench;
pub mod mem;
pub mod ring;
pub mod shim;
pub mod seqlock;
pub mod spmc;

pub mod spsc;
pub mod text;
