use low_latency_data_structures::bench::harness::spmc::{
    run_ticks, SpmcCapacitySweepCfg, SpmcHandoffCfg, SpmcLappedCfg, SpmcReadResult, SpmcSemantics,
};
use low_latency_data_structures::bench::harness::spsc::{
    assess_rate, rate_plan, ticks_per_item_q32, ticks_to_ns, Pacer, SpscHandoffCfg,
    SpscThrottledCfg, Stamped,
};
use low_latency_data_structures::bench::harness::report::{delta_as_nanos, ReadCounts};
use low_latency_data_structures::bench::harness::{loc_delta, LatencyReport};
use low_latency_data_structures::spmc::ReadResult;

#[test]
fn handoff_defaults() {
    let c = SpscHandoffCfg::default();
    assert_eq!((c.n, c.warmup), (10_000_000, 1_000_000));
    let s = SpmcHandoffCfg::default();
    assert_eq!((s.n, s.warmup, s.producer_pace_cycles), (10_000_000, 1_000_000, 1000));
    assert_eq!(SpmcLappedCfg::default().delays_cycles, vec![0, 100, 500, 2_000, 10_000, 50_000, 200_000]);
    assert_eq!(SpmcLappedCfg::default().run_secs, 2);
    assert_eq!(SpmcCapacitySweepCfg::default().run_secs, 2);
}

#[test]
fn throttled_plan_clamps_and_saturates() {
    let cfg = SpscThrottledCfg::default();
    assert_eq!(cfg.rates_hz.len(), 9);
    assert_eq!(rate_plan(&cfg, 1_000_000), (3_000_000, 300_000));
    assert_eq!(rate_plan(&cfg, 100), (1_000_000, 100_000));
    assert_eq!(rate_plan(&cfg, 500_000_000), (50_000_000, 5_000_000));
    assert_eq!(rate_plan(&cfg, u64::MAX), (50_000_000, 5_000_000));
}

#[test]
fn schedule_arithmetic() {
    // 3 GHz TSC at 1 M items/s: 3000 ticks per item
    let dt = ticks_per_item_q32(3_000_000_000, 1_000_000);
    assert_eq!(dt, 3000u128 << 32);
    let mut p = Pacer::start(5, dt);
    assert_eq!(p.schedule_q32, 5u128 << 32);
    assert_eq!(p.next_deadline(), 3005);
    assert_eq!(p.schedule_q32, 3005u128 << 32);
    assert_eq!(p.next_deadline(), 6005);
    assert_eq!(ticks_to_ns(3_000, 3_000_000_000), 1_000);
    assert_eq!(ticks_to_ns(1, 3_000_000_000), 0);
}

#[test]
fn rate_assessment() {
    // 1e6 items in 1 s of a 1 GHz TSC: 1e6 items/s, no lag, not saturated
    let a = assess_rate(1_000_000, 1_000_000, 1_000_000_000, 1_000_000_000, 0, 0);
    assert_eq!(a.effective_hz, 1_000_000);
    assert_eq!(a.final_lag_ns, 0);
    assert!(!a.saturated);
    // more than 1% full pushes
    let b = assess_rate(1_000_000, 1000, 1_000_000_000, 1_000_000_000, 11, 0);
    assert!(b.saturated);
    // exactly 1% is not saturated
    let c = assess_rate(1_000_000, 1000, 1_000_000_000, 1_000_000_000, 10, 0);
    assert!(!c.saturated);
    // lag beyond max(10 ms, 100 periods)
    let d = assess_rate(1_000_000, 1000, 1_000_000_000, 1_000_000_000, 0, 10_000_001);
    assert_eq!(d.final_lag_ns, 10_000_001);
    assert!(d.saturated);
    // at 1 item/s the threshold is 100 s
    let e = assess_rate(1, 1000, 1_000_000_000, 1_000_000_000, 0, 99_000_000_000);
    assert!(!e.saturated);
    // zero elapsed time reports zero rate
    let f = assess_rate(1_000_000, 1000, 1_000_000_000, 0, 0, 0);
    assert_eq!(f.effective_hz, 0);
}

#[test]
fn loc_delta_pairs_cpus_with_differences() {
    let d = loc_delta(&[7, 8, 9], &[Some(10), None, Some(5)], &[Some(15), Some(3), Some(2)]);
    assert_eq!(d, vec![(7, Some(5)), (8, None), (9, Some(0))]);
}

#[test]
fn spmc_harness_types() {
    assert_eq!(SpmcReadResult::from_read_result(ReadResult::Value(3u8)), SpmcReadResult::Value(3));
    assert_eq!(SpmcReadResult::<u8>::from_read_result(ReadResult::Empty), SpmcReadResult::Empty);
    assert_eq!(
        SpmcReadResult::<u8>::from_read_result(ReadResult::Lapped { skipped: 4 }),
        SpmcReadResult::Lapped { skipped: 4 }
    );
    assert_eq!(SpmcSemantics::OverwritingLapNotified.describe(), "overwriting (lap-notified)");
    assert_eq!(SpmcSemantics::Backpressure.describe(), "backpressure");
    assert_eq!(run_ticks(3_000_000_000, 2), 6_000_000_000);
    let s = Stamped { schedule_tsc: 1, push_tsc: 2 };
    assert_eq!((s.schedule_tsc, s.push_tsc), (1, 2));
}

#[test]
fn pacer_schedule_is_open_loop() {
    // 3 GHz TSC at 7 items/s: the fractional part of a tick is carried
    let dt = ticks_per_item_q32(3_000_000_000, 7);
    let mut p = Pacer::start(1_000, dt);
    let mut last = 0;
    for k in 1..=70u64 {
        last = p.next_deadline();
        // full pushes never move the schedule
        p.record_push(k % 3 == 0);
        let ideal = 1_000 + k * 3_000_000_000 / 7;
        assert!(last <= ideal && last + 1 >= ideal);
    }
    // one tick short of the ideal 1000 + 3e10: Q32 rounding, never more
    assert_eq!(last, 1_000 + 29_999_999_999);
    assert_eq!(p.full_pushes, 23);
    // finishing before the last deadline reports no lag
    assert_eq!(p.finish(1_500), (500, 23, 0));
    assert_eq!(p.finish(last + 40), (last + 40 - 1_000, 23, 40));
}

#[test]
fn pacer_wraps_like_a_release_build() {
    let mut p = Pacer::start(0, u128::MAX);
    p.schedule_q32 = 1;
    assert_eq!(p.next_deadline(), 0);
    assert_eq!(p.schedule_q32, 0);
    assert_eq!(p.finish(3).0, 3);
    let q = Pacer::start(10, 0);
    assert_eq!(q.finish(4).0, u64::MAX - 5);
}

#[test]
fn read_counts_skip_warmup() {
    let mut c = ReadCounts::new(2);
    assert!(!c.on_value());
    assert!(!c.on_lapped());
    assert!(c.on_value());
    assert!(c.on_lapped());
    assert!(c.on_value());
    assert_eq!((c.seen, c.values, c.lapped), (5, 2, 1));
    let mut z = ReadCounts::new(0);
    assert!(z.on_lapped());
    assert_eq!((z.seen, z.values, z.lapped), (1, 0, 1));
}

#[test]
fn latency_report_lines() {
    let r = LatencyReport {
        impl_name: "ours",
        warnings: &["slow path"],
        p50: 42,
        p90: 1_234_567,
        p99: 7,
        p999: 8,
        max: 123_456_789,
        loc_delta: vec![(3, Some(0)), (12, None)],
    };
    let lines = r.lines_with_nanos(&[14, 411_522, 2, 3, 41_152_263]);
    let expect: Vec<String> = vec![
        "== ours ==",
        "  WARN: slow path",
        "  p50         42 cycles (   14 ns)",
        "  p90    1234567 cycles (411522 ns)",
        "  p99          7 cycles (    2 ns)",
        "  p99.9        8 cycles (    3 ns)",
        "  max    123456789 cycles (41152263 ns)",
        "",
        "  Local timer interrupts during run (per cpu, nohz_full should keep these near 0):",
        "    cpu 3: +0",
        "    cpu12: unreadable",
    ]
    .into_iter()
    .map(String::from)
    .collect();
    assert_eq!(lines, expect);
}

#[test]
fn latency_report_lines_with_clock() {
    let r = LatencyReport {
        impl_name: "x",
        warnings: &[],
        p50: 0,
        p90: 0,
        p99: 0,
        p999: 0,
        max: 0,
        loc_delta: vec![],
    };
    let clock = quanta::Clock::new();
    let lines = r.lines(&clock);
    assert_eq!(lines[0], "== x ==");
    assert_eq!(lines[1], "  p50          0 cycles (    0 ns)");
    assert_eq!(lines[5], "  max          0 cycles (    0 ns)");
    assert_eq!(lines.len(), 8);
}

#[test]
fn clock_delta_is_zero_unless_end_is_later() {
    let clock = quanta::Clock::new();
    assert_eq!(delta_as_nanos(&clock, 5, 5), 0);
    assert_eq!(delta_as_nanos(&clock, 9, 3), 0);
}
