//! Timestamp-counter arithmetic: turning a calibration interval into a
//! TSC frequency.
use vstd::prelude::*;

verus! {

/// The TSC frequency that a calibration measured: `t1 - t0` ticks over
/// `elapsed_ns` nanoseconds of wall time, in ticks per second, computed in
/// 128 bits and truncated to 64 as the calibration reports it.
pub open spec fn hz_spec(t0: u64, t1: u64, elapsed_ns: u128) -> u64 {
    (((t1 - t0) * 1_000_000_000) / (elapsed_ns as int)) as u64
}

/// The TSC frequency from a calibration interval: the counter read `t0`
/// then `t1` (no earlier than `t0`) across `elapsed_ns > 0` nanoseconds.
pub fn hz_from_interval(t0: u64, t1: u64, elapsed_ns: u128) -> (hz: u64)
    requires
        t0 <= t1,
        elapsed_ns > 0,
    ensures
        hz == hz_spec(t0, t1, elapsed_ns),
{
    let ticks = (t1 - t0) as u128;
    assert(ticks * 1_000_000_000 <= u128::MAX) by (nonlinear_arith)
        requires
            ticks <= u64::MAX,
    ;
    let scaled = ticks * 1_000_000_000;
    (scaled / elapsed_ns) as u64
}

} // verus!
