use conform::report::{Report, Tap};

#[test]
fn plan_emits_header_and_range() {
    let mut tap = Tap::new();
    tap.plan(1, 5);
    assert_eq!(tap.lines, vec!["TAP version 14".to_string(), "1..5".to_string()]);
}

#[test]
fn status_lines_carry_number_and_name() {
    let mut tap = Tap::new();
    tap.ok(3, "SomeCase");
    tap.not_ok(12, "OtherCase");
    assert_eq!(
        tap.lines,
        vec!["ok 3 - SomeCase".to_string(), "not ok 12 - OtherCase".to_string()]
    );
}

#[test]
fn diagnostic_reflows_newlines() {
    let mut tap = Tap::new();
    tap.diagnostic("one\ntwo\nthree");
    assert_eq!(tap.lines, vec!["# one\n# two\n# three".to_string()]);
}

#[test]
fn plain_diagnostic_gets_one_prefix() {
    let mut tap = Tap::new();
    tap.diagnostic("hello");
    assert_eq!(tap.lines, vec!["# hello".to_string()]);
}

#[test]
fn take_lines_drains_the_buffer() {
    let mut tap = Tap::new();
    tap.ok(1, "a");
    let drained = tap.take_lines();
    assert_eq!(drained, vec!["ok 1 - a".to_string()]);
    assert!(tap.lines.is_empty());
}
