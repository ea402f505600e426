use low_latency_data_structures::bench::loc::read;

const INTERRUPTS: &str = "           CPU0       CPU1       CPU2       CPU3       
  0:         36          0          0          0   IO-APIC    2-edge      timer
 LOC:   12345678     234567         17          0   Local timer interrupts
 SPU:          0          0          0          0   Spurious interrupts
";

#[test]
fn counters_by_cpu_column() {
    assert_eq!(
        read(Some(INTERRUPTS), &[2, 0, 3]),
        vec![Some(17), Some(12345678), Some(0)]
    );
}

#[test]
fn offline_cpus_have_no_column() {
    // cpu 1 offline: the header skips it and the columns shift
    let text = "   CPU0  CPU2\nLOC:  5  9  Local timer interrupts\n";
    assert_eq!(read(Some(text), &[0, 1, 2]), vec![Some(5), None, Some(9)]);
}

#[test]
fn unreadable_or_missing_row() {
    assert_eq!(read(None, &[0, 1]), vec![None, None]);
    assert_eq!(read(Some(""), &[0]), vec![None]);
    assert_eq!(read(Some("CPU0\nNMI: 1\n"), &[0]), vec![None]);
    // the header itself is never taken for the row
    assert_eq!(read(Some("LOC: CPU0\n"), &[0]), vec![None]);
    assert_eq!(read(Some(INTERRUPTS), &[]), Vec::<Option<u64>>::new());
}

#[test]
fn short_row_and_repeated_tags() {
    // fewer counters than columns; a repeated tag is stripped like
    // `trim_start_matches`
    let text = "CPU0 CPU1 CPU2\r\n  LOC:LOC: 4 x 6\r\n";
    assert_eq!(read(Some(text), &[0, 1, 2]), vec![Some(4), Some(6), None]);
    // the first column naming a cpu wins
    let dup = "CPU1 CPU1\nLOC: 8 9\n";
    assert_eq!(read(Some(dup), &[1]), vec![Some(8)]);
}
