use conform::stats::Stats;

#[test]
fn percentile_excludes_skipped_from_denominator() {
    let mut s = Stats::new(10);
    s.passed = 7;
    s.skipped = 2;
    s.failed = 1;
    s.calculate();
    // 100 * 7 / (10 - 2)
    assert_eq!(s.percentile, 87);
}

#[test]
fn all_passed_is_one_hundred() {
    let mut s = Stats::new(4);
    s.passed = 4;
    s.calculate();
    assert_eq!(s.percentile, 100);
}

#[test]
fn all_skipped_is_the_sentinel() {
    let mut s = Stats::new(3);
    s.skipped = 3;
    s.calculate();
    assert_eq!(s.percentile, 100);
}

#[test]
fn failed_flag_follows_counter() {
    let mut s = Stats::new(2);
    assert!(!s.failed());
    s.failed = 1;
    assert!(s.failed());
}
