use low_latency_data_structures::bench::preflight::{
    cores_distinct_physical, cores_isolated, cores_nohz_full, cores_online,
    cores_performance_governor, cores_share_l3, cores_smt_siblings_quiet, hugepages_at_least,
    read_cpu_list, release_build, siblings_of, tsc_invariant_and_nonstop, turbo_disabled,
    PreflightReport,
};

fn report() -> PreflightReport {
    PreflightReport::default()
}

#[test]
fn warn_and_fail_record_messages() {
    let mut r = report();
    r.warn(String::from("w1"));
    r.fail(String::from("f1"));
    r.warn(String::from("w2"));
    assert_eq!(r.warnings, vec!["w1".to_string(), "w2".to_string()]);
    assert_eq!(r.failures, vec!["f1".to_string()]);
    assert!(r.has_failures());
    assert!(!report().has_failures());
}

#[test]
fn release_build_fails_only_for_debug_builds() {
    let mut r = report();
    release_build(&mut r, false);
    assert!(r.failures.is_empty());
    release_build(&mut r, true);
    assert_eq!(r.failures, vec!["debug build, build with `--release` instead".to_string()]);
    assert!(r.warnings.is_empty());
}

#[test]
fn cores_online_fails_for_offline_cores() {
    let mut r = report();
    cores_online(&mut r, &[7, 8, 12], Some("0-9,11"));
    assert_eq!(r.failures, vec!["core 12 is offline".to_string()]);
    let mut r = report();
    cores_online(&mut r, &[1, 2], None);
    assert_eq!(r.failures, vec!["core 1 is offline".to_string(), "core 2 is offline".to_string()]);
}

#[test]
fn cores_isolated_warns_with_the_isolated_list() {
    let mut r = report();
    cores_isolated(&mut r, &[7, 8], Some("2-3,7"));
    assert_eq!(r.warnings, vec!["core 8 not in isolcpus (got [2, 3, 7])".to_string()]);
    let mut r = report();
    cores_isolated(&mut r, &[0], Some(""));
    assert_eq!(r.warnings, vec!["core 0 not in isolcpus (got [])".to_string()]);
    assert!(r.failures.is_empty());
}

#[test]
fn cores_nohz_full_warns_for_missing_cores() {
    let mut r = report();
    cores_nohz_full(&mut r, &[7, 8], Some("7-8"));
    assert!(r.warnings.is_empty());
    cores_nohz_full(&mut r, &[3], Some("7-8"));
    assert_eq!(r.warnings, vec!["core 3 not in nohz_full".to_string()]);
}

#[test]
fn governor_check_wants_performance() {
    let mut r = report();
    cores_performance_governor(
        &mut r,
        &[7, 8, 9],
        &[Some("performance".to_string()), Some("powersave".to_string()), None],
    );
    assert_eq!(
        r.warnings,
        vec![
            "core 8 governor = powersave, want performance".to_string(),
            "core 9 governor unreadable".to_string()
        ]
    );
}

#[test]
fn turbo_check_prefers_intel_pstate() {
    let mut r = report();
    turbo_disabled(&mut r, Some("1"), Some("1"));
    assert!(r.warnings.is_empty());
    turbo_disabled(&mut r, Some("0"), None);
    assert_eq!(r.warnings, vec!["intel_pstate/no_turbo = 0, want 1".to_string()]);
    let mut r = report();
    turbo_disabled(&mut r, None, Some("0"));
    assert!(r.warnings.is_empty());
    turbo_disabled(&mut r, None, Some("1"));
    turbo_disabled(&mut r, None, None);
    assert_eq!(
        r.warnings,
        vec![
            "cpufreq/boost = 1, want 0".to_string(),
            "turbo state unreadable (neither Intel pstate nor AMD boost)".to_string()
        ]
    );
}

#[test]
fn distinct_physical_fails_for_siblings() {
    let mut r = report();
    let pkg0 = Some("0".to_string());
    cores_distinct_physical(
        &mut r,
        &[1, 2, 3],
        &[Some("0".to_string()), Some("4".to_string()), Some("0".to_string())],
        &[pkg0.clone(), pkg0.clone(), pkg0.clone()],
    );
    assert_eq!(r.failures, vec!["cores 1 and 3 are SMT siblings of physical core 0".to_string()]);
    assert!(r.warnings.is_empty());
    let mut r = report();
    cores_distinct_physical(&mut r, &[1, 2], &[None, None], &[pkg0.clone(), pkg0.clone()]);
    assert!(r.failures.is_empty());
}

#[test]
fn distinct_physical_tells_sockets_apart() {
    // equal core ids on two packages are different physical cores
    let mut r = report();
    let id = Some("3".to_string());
    cores_distinct_physical(
        &mut r,
        &[3, 27],
        &[id.clone(), id.clone()],
        &[Some("0".to_string()), Some("1".to_string())],
    );
    assert!(r.failures.is_empty());
    // an unreadable package id decides nothing
    let mut r = report();
    cores_distinct_physical(&mut r, &[3, 27], &[id.clone(), id.clone()], &[None, None]);
    assert!(r.failures.is_empty());
    let mut r = report();
    let pkg = Some("1".to_string());
    cores_distinct_physical(&mut r, &[3, 27], &[id.clone(), id], &[pkg.clone(), pkg]);
    assert_eq!(r.failures, vec!["cores 3 and 27 are SMT siblings of physical core 3".to_string()]);
}

#[test]
fn share_l3_warns_for_different_caches() {
    let mut r = report();
    cores_share_l3(
        &mut r,
        &[7, 8, 9],
        &[Some("0-11".to_string()), Some("0-11".to_string()), Some("12-23".to_string())],
    );
    assert_eq!(
        r.warnings,
        vec![
            "cores 7 and 9 don't share L3 (0-11 vs 12-23)".to_string(),
            "cores 8 and 9 don't share L3 (0-11 vs 12-23)".to_string()
        ]
    );
}

#[test]
fn smt_siblings_quiet_warns_for_busy_siblings() {
    let mut r = report();
    cores_smt_siblings_quiet(
        &mut r,
        &[7, 8],
        Some("1,7-8"),
        &[vec![(1, Some("1".to_string()))], vec![(2, Some("1".to_string())), (3, Some("0".to_string()))]],
    );
    assert_eq!(
        r.warnings,
        vec!["SMT sibling of 8 is cpu 2, online and not isolated will steal execution units"
            .to_string()]
    );
}

#[test]
fn siblings_exclude_the_core_itself() {
    assert_eq!(siblings_of(7, Some("1,7")), vec![1]);
    assert_eq!(siblings_of(7, None), Vec::<usize>::new());
}

#[test]
fn read_cpu_list_of_unreadable_file_is_empty() {
    assert_eq!(read_cpu_list(None), Vec::<usize>::new());
    assert_eq!(read_cpu_list(Some("2-3,5,7-9")), vec![2, 3, 5, 7, 8, 9]);
}

#[test]
fn hugepages_free_count() {
    let meminfo = "MemTotal:       32768000 kB\nHugePages_Total:     512\nHugePages_Free:      100\nHugePages_Rsvd:        0\n";
    let mut ok = report();
    hugepages_at_least(&mut ok, 100, Some(meminfo));
    assert!(ok.warnings.is_empty() && ok.failures.is_empty());
    let mut short = report();
    hugepages_at_least(&mut short, 101, Some(meminfo));
    assert_eq!(
        short.failures,
        vec!["need >= 101 free 2MiB hugepages, have 100 (try `just enable-hugepages`)".to_string()]
    );
    assert!(short.warnings.is_empty());
    let mut none = report();
    hugepages_at_least(&mut none, 1, None);
    assert_eq!(
        none.warnings,
        vec!["/proc/meminfo unreadable, cannot verify hugepage availability".to_string()]
    );
    let mut bad = report();
    hugepages_at_least(&mut bad, 1, Some("MemFree: 1\n HugePages_Free: 9\nHugePages_Free: x\n"));
    assert_eq!(bad.warnings, vec!["could not parse HugePages_Free from /proc/meminfo".to_string()]);
    assert!(bad.failures.is_empty());
}

#[test]
fn tsc_flags() {
    let mut ok = report();
    tsc_invariant_and_nonstop(&mut ok, Some("flags\t\t: fpu constant_tsc nonstop_tsc\n"));
    assert!(ok.failures.is_empty() && ok.warnings.is_empty());
    let mut missing = report();
    tsc_invariant_and_nonstop(&mut missing, Some("flags : fpu tsc\n"));
    assert_eq!(
        missing.failures,
        vec![
            "CPU missing `constant_tsc`; TSC unsuitable".to_string(),
            "CPU missing `nonstop_tsc`; TSC unsuitable".to_string()
        ]
    );
    let mut none = report();
    tsc_invariant_and_nonstop(&mut none, None);
    assert_eq!(
        none.warnings,
        vec!["/proc/cpuinfo unreadable, cannot verify TSC quality".to_string()]
    );
    assert!(none.failures.is_empty());
}
