//! SPSC bench interfaces and tunables, and the schedule and saturation
//! arithmetic of the throttled-producer sweep.
use vstd::prelude::*;

verus! {

/// Producer half of an SPSC pair, as the harness sees it: `Err(v)` hands the
/// value back when the queue is full. Implementations must not block.
pub trait SpscProd<T> {
    /// Attempts to enqueue `v`.
    fn try_push(&mut self, v: T) -> Result<(), T>;
}

/// Consumer half of an SPSC pair, as the harness sees it: `None` when empty.
pub trait SpscCons<T> {
    /// Attempts to dequeue the next value.
    fn try_pop(&mut self) -> Option<T>;
}

/// Marker that constructs an SPSC pair of capacity `CAPACITY`.
pub trait SpscBench<T, const CAPACITY: usize>: Sized {
    /// Producer handle.
    type Prod: SpscProd<T>;
    /// Consumer handle.
    type Cons: SpscCons<T>;
    /// Short label printed in the report header.
    const NAME: &'static str;
    /// Caveats printed at the top of the report.
    const WARNINGS: &'static [&'static str];
    /// Constructs the pair.
    fn new() -> (Self::Prod, Self::Cons);
}

/// Tunables for the direct handoff bench.
#[derive(Clone, Copy, Debug)]
pub struct SpscHandoffCfg {
    /// Total number of items the producer pushes.
    pub n: u64,
    /// Number of items the consumer discards before recording samples.
    pub warmup: u64,
}

impl Default for SpscHandoffCfg {
    fn default() -> (c: Self)
        ensures
            c.n == 10_000_000,
            c.warmup == 1_000_000,
    {
        SpscHandoffCfg { n: 10_000_000, warmup: 1_000_000 }
    }
}

/// Item the throttled bench hands off: when it was scheduled to be
/// published and when it actually was, both in TSC cycles.
#[derive(Clone, Copy, Debug)]
pub struct Stamped {
    /// TSC value at which the item was scheduled.
    pub schedule_tsc: u64,
    /// TSC value right before the push.
    pub push_tsc: u64,
}

/// Tunables for the throttled-producer sweep.
#[derive(Clone, Debug)]
pub struct SpscThrottledCfg {
    /// Offered rates in items per second; one measurement per rate.
    pub rates_hz: Vec<u64>,
    /// Per-rate wall-time target: `n = rate * target_secs`, clamped.
    pub target_secs: u64,
    /// Warmup as a divisor: `warmup = n / warmup_divisor`.
    pub warmup_divisor: u64,
    /// Also record system latency (`now - push_tsc`) for unsaturated rates.
    pub capture_sys_latency: bool,
    /// Lower clamp on `n`.
    pub min_n: u64,
    /// Upper clamp on `n`.
    pub max_n: u64,
}

impl Default for SpscThrottledCfg {
    fn default() -> (c: Self)
        ensures
            c.rates_hz@ == seq![
                1_000_000u64,
                10_000_000,
                28_000_000,
                30_000_000,
                50_000_000,
                100_000_000,
                200_000_000,
                300_000_000,
                500_000_000,
            ],
            c.target_secs == 3,
            c.warmup_divisor == 10,
            !c.capture_sys_latency,
            c.min_n == 1_000_000,
            c.max_n == 50_000_000,
    {
        SpscThrottledCfg {
            rates_hz: vec![
                1_000_000,
                10_000_000,
                28_000_000,
                30_000_000,
                50_000_000,
                100_000_000,
                200_000_000,
                300_000_000,
                500_000_000,
            ],
            target_secs: 3,
            warmup_divisor: 10,
            capture_sys_latency: false,
            min_n: 1_000_000,
            max_n: 50_000_000,
        }
    }
}

/// `x` clamped into `[lo, hi]`.
pub open spec fn clamped(x: int, lo: int, hi: int) -> int {
    if x < lo {
        lo
    } else if x > hi {
        hi
    } else {
        x
    }
}

/// The number of items and of warmup items for one offered rate:
/// `rate * target_secs` (saturating), clamped into `[min_n, max_n]`, and
/// that count divided by `warmup_divisor`.
pub fn rate_plan(cfg: &SpscThrottledCfg, rate_hz: u64) -> (r: (u64, u64))
    requires
        cfg.min_n <= cfg.max_n,
        cfg.warmup_divisor > 0,
    ensures
        r.0 == clamped(
            if rate_hz * cfg.target_secs > u64::MAX {
                u64::MAX as int
            } else {
                rate_hz * cfg.target_secs
            },
            cfg.min_n as int,
            cfg.max_n as int,
        ),
        r.1 == r.0 / cfg.warmup_divisor,
{
    let product = match rate_hz.checked_mul(cfg.target_secs) {
        Some(p) => p,
        None => u64::MAX,
    };
    let n = if product < cfg.min_n {
        cfg.min_n
    } else if product > cfg.max_n {
        cfg.max_n
    } else {
        product
    };
    let warmup = n / cfg.warmup_divisor;
    (n, warmup)
}

/// TSC ticks per item at `rate_hz` in Q32 fixed point: `(tsc_hz << 32) / rate_hz`.
pub fn ticks_per_item_q32(tsc_hz: u64, rate_hz: u64) -> (r: u128)
    requires
        rate_hz > 0,
    ensures
        r == (tsc_hz as int * 0x1_0000_0000) / (rate_hz as int),
{
    let shifted: u128 = (tsc_hz as u128) * 0x1_0000_0000;
    shifted / (rate_hz as u128)
}

/// `2^32`, the scale of the Q32 fixed-point schedule.
pub open spec fn q32_one() -> int {
    0x1_0000_0000
}

/// The open-loop schedule of the throttled producer, in Q32 fixed point:
/// item `i` (from 1) is due at `(t_start * 2^32 + i * dt_q32) >> 32` ticks.
/// The schedule advances whether or not the pushes keep up, so a stalled
/// consumer shows up as growing latency instead of fewer samples.
pub struct Pacer {
    /// TSC value at which the run started.
    pub t_start: u64,
    /// Ticks per item in Q32 fixed point.
    pub dt_q32: u128,
    /// The current schedule point in Q32 fixed point.
    pub schedule_q32: u128,
    /// Items whose first push attempt met a full queue.
    pub full_pushes: u64,
}

/// The deadline of the `k`-th item (from 1) of a schedule that started at
/// `t_start` with `dt_q32` Q32 ticks per item, as [`Pacer::next_deadline`]
/// computes it while the schedule has not wrapped around.
pub open spec fn deadline(t_start: u64, dt_q32: int, k: nat) -> int {
    (t_start * q32_one() + k * dt_q32) / q32_one()
}

impl Pacer {
    /// Starts a schedule at `t_start` with `dt_q32` ticks per item.
    pub fn start(t_start: u64, dt_q32: u128) -> (p: Self)
        ensures
            p.t_start == t_start,
            p.dt_q32 == dt_q32,
            p.schedule_q32 == t_start * q32_one(),
            p.full_pushes == 0,
    {
        Pacer { t_start, dt_q32, schedule_q32: (t_start as u128) * 0x1_0000_0000, full_pushes: 0 }
    }

    /// Advances the schedule by one item (wrapping as a release build
    /// does) and returns the whole-tick deadline of that item.
    pub fn next_deadline(&mut self) -> (due: u64)
        ensures
            final(self).schedule_q32 == (old(self).schedule_q32 + old(self).dt_q32) % (
            u128::MAX + 1),
            due == (final(self).schedule_q32 as int / q32_one()) as u64,
            final(self).t_start == old(self).t_start,
            final(self).dt_q32 == old(self).dt_q32,
            final(self).full_pushes == old(self).full_pushes,
    {
        self.schedule_q32 = self.schedule_q32.wrapping_add(self.dt_q32);
        (self.schedule_q32 / 0x1_0000_0000) as u64
    }

    /// Notes how the push of the current item went: `met_full` when its
    /// first attempt found the queue full.
    pub fn record_push(&mut self, met_full: bool)
        ensures
            final(self).full_pushes == (if met_full {
                (old(self).full_pushes + 1) % (u64::MAX + 1)
            } else {
                old(self).full_pushes as int
            }),
            final(self).t_start == old(self).t_start,
            final(self).dt_q32 == old(self).dt_q32,
            final(self).schedule_q32 == old(self).schedule_q32,
    {
        if met_full {
            self.full_pushes = self.full_pushes.wrapping_add(1);
        }
    }

    /// What the run measured when it ended at `t_end`: the elapsed ticks
    /// (wrapping), the items that met a full queue, and how far behind the
    /// last deadline the producer finished (0 if not behind).
    pub fn finish(&self, t_end: u64) -> (r: (u64, u64, u64))
        ensures
            r.0 == (t_end - self.t_start) % (u64::MAX + 1),
            r.1 == self.full_pushes,
            r.2 == (if t_end >= (self.schedule_q32 as int / q32_one()) as u64 {
                t_end - (self.schedule_q32 as int / q32_one()) as u64
            } else {
                0
            }),
    {
        let last = (self.schedule_q32 / 0x1_0000_0000) as u64;
        (t_end.wrapping_sub(self.t_start), self.full_pushes, t_end.saturating_sub(last))
    }
}

/// The start's whole ticks pass through the Q32 scaling unchanged.
proof fn lemma_deadline_offset(t_start: u64, dt_q32: int, k: nat)
    requires
        dt_q32 >= 0,
    ensures
        deadline(t_start, dt_q32, k) == t_start + (k * dt_q32) / q32_one(),
{
    vstd::arithmetic::div_mod::lemma_hoist_over_denominator(
        k * dt_q32,
        t_start as int,
        q32_one() as nat,
    );
}

/// The schedule does not drift: with the Q32 ticks per item that
/// [`ticks_per_item_q32`] gives for `tsc_hz` and `rate_hz`, the deadline of
/// item `k` lies at most one tick before the ideal
/// `t_start + k * tsc_hz / rate_hz` (rounded down), and never after it, for
/// every `k` up to `2^32` items.
pub proof fn lemma_schedule_drift(t_start: u64, tsc_hz: u64, rate_hz: u64, k: nat)
    requires
        rate_hz > 0,
        k <= q32_one(),
    ensures
        ({
            let dt = (tsc_hz * q32_one()) / (rate_hz as int);
            let ideal = t_start + (k * tsc_hz) / (rate_hz as int);
            ideal - 1 <= deadline(t_start, dt, k) <= ideal
        }),
{
    lemma_deadline_offset(t_start, (tsc_hz * q32_one()) / (rate_hz as int), k);
    let a = tsc_hz * q32_one();
    let dt = a / (rate_hz as int);
    let r = rate_hz as int;
    let q = q32_one();
    let ideal = (k * tsc_hz) / r;
    let d = (k * dt) / q;
    vstd::arithmetic::div_mod::lemma_fundamental_div_mod(a, r);
    assert(0 <= a - dt * r < r);
    assert(0 <= dt);
    // upper: k * dt * r <= k * a, so k * dt <= k * a / r, then / q
    assert(k * dt * r <= k * a) by (nonlinear_arith)
        requires
            dt * r <= a,
            k >= 0,
    ;
    assert(d <= ideal) by (nonlinear_arith)
        requires
            k * dt * r <= k * a,
            a == tsc_hz * q,
            q > 0,
            r > 0,
            k >= 0,
            dt >= 0,
            d == (k * dt) / q,
            ideal == (k * tsc_hz) / r,
    ;
    let x = k * dt;
    assert(x * r >= k * a - k * r) by (nonlinear_arith)
        requires
            a - dt * r < r,
            k >= 0,
            x == k * dt,
    ;
    vstd::arithmetic::div_mod::lemma_fundamental_div_mod(k * tsc_hz, r);
    assert(ideal * r <= k * tsc_hz);
    assert(x * r >= ideal * r * q - k * r) by (nonlinear_arith)
        requires
            x * r >= k * a - k * r,
            a == tsc_hz * q,
            ideal * r <= k * tsc_hz,
            q > 0,
    ;
    assert(x >= ideal * q - k) by (nonlinear_arith)
        requires
            x * r >= ideal * r * q - k * r,
            r > 0,
    ;
    assert(x >= (ideal - 1) * q) by (nonlinear_arith)
        requires
            x >= ideal * q - k,
            k <= q,
    ;
    assert(ideal - 1 <= d) by (nonlinear_arith)
        requires
            x >= (ideal - 1) * q,
            q > 0,
            d == x / q,
    ;
}

/// Nanoseconds for `ticks` TSC cycles at `tsc_hz`: `ticks * 1e9 / tsc_hz`,
/// truncated to 64 bits as the harness reports it.
pub open spec fn ticks_to_ns_spec(ticks: u64, tsc_hz: u64) -> u64 {
    ((ticks as int * 1_000_000_000) / (tsc_hz as int)) as u64
}

/// Converts TSC cycles to nanoseconds.
pub fn ticks_to_ns(ticks: u64, tsc_hz: u64) -> (r: u64)
    requires
        tsc_hz > 0,
    ensures
        r == ticks_to_ns_spec(ticks, tsc_hz),
{
    let scaled: u128 = (ticks as u128) * 1_000_000_000;
    (scaled / (tsc_hz as u128)) as u64
}

/// What one offered rate achieved.
#[derive(Clone, Copy, Debug)]
pub struct RateAssessment {
    /// Items per second actually achieved over the measurement window.
    pub effective_hz: u64,
    /// How far behind the ideal schedule the producer was at the end, in ns.
    pub final_lag_ns: u64,
    /// Whether the rate was beyond what the queue sustained.
    pub saturated: bool,
}

/// Saturation: more than 1% of the items met a full queue at least once
/// (counted with a saturating multiplication),
/// or the producer ended more than `max(10 ms, 100 periods)` behind schedule.
pub open spec fn saturated_spec(rate_hz: u64, n: u64, full_pushes: u64, final_lag_ns: u64) -> bool {
    let period_ns = if 1_000_000_000int / (rate_hz as int) > 1 {
        1_000_000_000int / (rate_hz as int)
    } else {
        1
    };
    let threshold = if 100 * period_ns > 10_000_000 {
        100 * period_ns
    } else {
        10_000_000
    };
    let full_scaled = if full_pushes * 100 > u64::MAX {
        u64::MAX as int
    } else {
        full_pushes * 100
    };
    full_scaled > n || final_lag_ns > threshold
}

/// Saturation law for a rate of `rate_hz` items per second with
/// `full_pushes` of `n` items meeting a full queue and a final lag of
/// `lag_ns`:
/// - more than 1% full pushes always saturates;
/// - otherwise, a lag of at most 10 ms never saturates, whatever the rate;
/// - otherwise, a lag beyond both 10 ms and 100 item periods
///   (`100 * max(1, 10^9 / rate_hz)` ns) saturates, and one within either
///   bound does not;
/// - a longer lag never turns a saturated run unsaturated.
pub proof fn lemma_saturation(rate_hz: u64, n: u64, full_pushes: u64, lag_ns: u64, longer_ns: u64)
    requires
        rate_hz > 0,
    ensures
        full_pushes * 100 > n && n < u64::MAX ==> saturated_spec(rate_hz, n, full_pushes, lag_ns),
        full_pushes * 100 <= n && lag_ns <= 10_000_000 ==> !saturated_spec(
            rate_hz,
            n,
            full_pushes,
            lag_ns,
        ),
        full_pushes * 100 <= n ==> (saturated_spec(rate_hz, n, full_pushes, lag_ns) <==> (lag_ns
            > 10_000_000 && lag_ns > 100 * (if 1_000_000_000int / (rate_hz as int) > 1 {
            1_000_000_000int / (rate_hz as int)
        } else {
            1int
        }))),
        lag_ns <= longer_ns && saturated_spec(rate_hz, n, full_pushes, lag_ns) ==> saturated_spec(
            rate_hz,
            n,
            full_pushes,
            longer_ns,
        ),
{
}

/// Turns the producer's measurements for one rate into the achieved rate,
/// the final schedule lag and the saturation flag.
pub fn assess_rate(
    rate_hz: u64,
    n: u64,
    tsc_hz: u64,
    elapsed_tsc: u64,
    full_pushes: u64,
    final_lag_tsc: u64,
) -> (r: RateAssessment)
    requires
        rate_hz > 0,
        tsc_hz > 0,
    ensures
        r.effective_hz == (if ticks_to_ns_spec(elapsed_tsc, tsc_hz) == 0 {
            0
        } else {
            ((n as int * 1_000_000_000) / (ticks_to_ns_spec(elapsed_tsc, tsc_hz) as int)) as u64
        }),
        r.final_lag_ns == ticks_to_ns_spec(final_lag_tsc, tsc_hz),
        r.saturated == saturated_spec(rate_hz, n, full_pushes, r.final_lag_ns),
{
    let elapsed_ns = ticks_to_ns(elapsed_tsc, tsc_hz) as u128;
    let effective_hz = match ((n as u128) * 1_000_000_000).checked_div(elapsed_ns) {
        Some(v) => v as u64,
        None => 0,
    };
    let final_lag_ns = ticks_to_ns(final_lag_tsc, tsc_hz);
    let per_item_ns = 1_000_000_000u128 / (rate_hz as u128);
    let period_ns: u128 = if per_item_ns > 1 {
        per_item_ns
    } else {
        1
    };
    let hundred_periods: u128 = 100u128 * period_ns;
    let lag_threshold_ns: u128 = if hundred_periods > 10_000_000u128 {
        hundred_periods
    } else {
        10_000_000u128
    };
    let full_scaled = match full_pushes.checked_mul(100) {
        Some(v) => v,
        None => u64::MAX,
    };
    let saturated = full_scaled > n || (final_lag_ns as u128) > lag_threshold_ns;
    RateAssessment { effective_hz, final_lag_ns, saturated }
}

} // verus!
