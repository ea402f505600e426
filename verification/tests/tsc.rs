use low_latency_data_structures::bench::tsc::hz_from_interval;

#[test]
fn frequency_from_calibration_interval() {
    // 600 M ticks in 200 ms: 3 GHz
    assert_eq!(hz_from_interval(1_000, 600_001_000, 200_000_000), 3_000_000_000);
    // rounds down
    assert_eq!(hz_from_interval(0, 10, 3), 3_333_333_333);
    assert_eq!(hz_from_interval(5, 5, 1), 0);
    // the 128-bit quotient is truncated to 64 bits
    assert_eq!(
        hz_from_interval(0, u64::MAX, 1),
        ((u64::MAX as u128) * 1_000_000_000) as u64
    );
}
