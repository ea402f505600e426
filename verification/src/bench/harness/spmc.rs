//! SPMC bench interfaces and tunables.
//!
//! Two semantic families share the interfaces: overwriting broadcasts, whose
//! publish always succeeds and whose slow consumers see `Lapped`, and
//! backpressure broadcasts, whose publish hands the value back while the
//! slowest consumer is behind.
use vstd::prelude::*;

use crate::spmc::ReadResult;

verus! {

/// Outcome of one `try_read` on an SPMC consumer, as the harness sees it.
#[derive(Debug, Clone, Copy, PartialEq, Eq)]
pub enum SpmcReadResult<T> {
    /// A value was read.
    Value(T),
    /// Nothing new is available.
    Empty,
    /// The producer lapped this consumer; `skipped` values were never observed.
    Lapped {
        /// Number of values skipped over.
        skipped: usize,
    },
}

impl<T> SpmcReadResult<T> {
    /// The harness view of this crate's own read outcome.
    pub fn from_read_result(r: ReadResult<T>) -> (s: Self)
        ensures
            match r {
                ReadResult::Value(v) => s == SpmcReadResult::Value(v),
                ReadResult::Empty => s == SpmcReadResult::<T>::Empty,
                ReadResult::Lapped { skipped } => s == SpmcReadResult::<T>::Lapped { skipped },
            },
    {
        match r {
            ReadResult::Value(v) => SpmcReadResult::Value(v),
            ReadResult::Empty => SpmcReadResult::Empty,
            ReadResult::Lapped { skipped } => SpmcReadResult::Lapped { skipped },
        }
    }
}

/// Producer half of an SPMC broadcast, as the harness sees it.
pub trait SpmcProd<T> {
    /// Attempts to publish `v`; overwriting impls always succeed.
    fn try_publish(&mut self, v: T) -> Result<(), T>;
}

/// Consumer half of an SPMC broadcast, as the harness sees it.
pub trait SpmcCons<T> {
    /// Attempts to read the next value.
    fn try_read(&mut self) -> SpmcReadResult<T>;
}

/// Which of the two SPMC semantic families an impl belongs to.
#[derive(Debug, Clone, Copy, PartialEq, Eq)]
pub enum SpmcSemantics {
    /// Publishing never blocks; slow consumers observe `Lapped`.
    OverwritingLapNotified,
    /// Publishing hands the value back while the slowest consumer is behind.
    Backpressure,
}

impl SpmcSemantics {
    /// How the family is named in reports.
    pub open spec fn label(self) -> Seq<char> {
        match self {
            SpmcSemantics::OverwritingLapNotified => "overwriting (lap-notified)"@,
            SpmcSemantics::Backpressure => "backpressure"@,
        }
    }

    /// The family's name as printed in reports.
    pub fn describe(&self) -> (s: String)
        ensures
            s@ == self.label(),
    {
        match self {
            SpmcSemantics::OverwritingLapNotified => String::from_str("overwriting (lap-notified)"),
            SpmcSemantics::Backpressure => String::from_str("backpressure"),
        }
    }
}

/// Marker that constructs a producer and a number of consumers over one
/// SPMC queue of capacity `CAPACITY`.
pub trait SpmcBench<T, const CAPACITY: usize>: Sized {
    /// Producer handle.
    type Prod: SpmcProd<T>;
    /// Consumer handle.
    type Cons: SpmcCons<T>;
    /// Short label printed in the report header.
    const NAME: &'static str;
    /// Caveats printed at the top of the report.
    const WARNINGS: &'static [&'static str];
    /// The semantic family of the impl.
    const SEMANTICS: SpmcSemantics;
    /// Constructs a producer and `n_consumers` consumers.
    fn new(n_consumers: usize) -> (Self::Prod, Vec<Self::Cons>);
}

/// Tunables for the SPMC handoff bench.
#[derive(Clone, Copy, Debug)]
pub struct SpmcHandoffCfg {
    /// Total number of items the producer publishes.
    pub n: u64,
    /// Number of items the consumer discards before recording samples.
    pub warmup: u64,
    /// TSC cycles the producer waits after each publish, so the consumer can
    /// observe a value before the next publish overwrites it.
    pub producer_pace_cycles: u64,
}

impl Default for SpmcHandoffCfg {
    fn default() -> (c: Self)
        ensures
            c.n == 10_000_000,
            c.warmup == 1_000_000,
            c.producer_pace_cycles == 1000,
    {
        SpmcHandoffCfg { n: 10_000_000, warmup: 1_000_000, producer_pace_cycles: 1000 }
    }
}

/// Tunables for the lapped sweep.
#[derive(Clone, Debug)]
pub struct SpmcLappedCfg {
    /// Per-read consumer delays (TSC cycles) to sweep.
    pub delays_cycles: Vec<u64>,
    /// Wall-clock seconds per delay step.
    pub run_secs: u64,
}

impl Default for SpmcLappedCfg {
    fn default() -> (c: Self)
        ensures
            c.delays_cycles@ == seq![0u64, 100, 500, 2_000, 10_000, 50_000, 200_000],
            c.run_secs == 2,
    {
        SpmcLappedCfg { delays_cycles: vec![0, 100, 500, 2_000, 10_000, 50_000, 200_000], run_secs: 2 }
    }
}

/// Tunables for the capacity sweep.
#[derive(Clone, Copy, Debug)]
pub struct SpmcCapacitySweepCfg {
    /// Wall-clock seconds per capacity.
    pub run_secs: u64,
}

impl Default for SpmcCapacitySweepCfg {
    fn default() -> (c: Self)
        ensures
            c.run_secs == 2,
    {
        SpmcCapacitySweepCfg { run_secs: 2 }
    }
}

/// Samples skipped at the start of each lapped or capacity-sweep step.
pub const WARMUP: u64 = 1000;

/// TSC ticks in a run of `run_secs` seconds at `tsc_hz`.
pub fn run_ticks(tsc_hz: u64, run_secs: u64) -> (r: u64)
    requires
        tsc_hz * run_secs <= u64::MAX,
    ensures
        r == tsc_hz * run_secs,
{
    tsc_hz * run_secs
}

} // verus!
