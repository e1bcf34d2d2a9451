use conform::engine::{Case, Outcome};
use conform::report::Tap;
use conform::session::Session;

fn outcome(case: Case, diagnostics: Vec<&str>) -> Outcome {
    let mut o = Outcome::new().set_case(case);
    for d in diagnostics {
        o.add_diagnostic(d.to_string());
    }
    o
}

#[test]
fn recommended_failure_is_reported_but_not_counted() {
    let mut tap = Tap::new();
    let mut session = Session::new(1, false, false);
    let failed = outcome(Case::Failed, vec!["boom"]);
    session.record_case(&mut tap, "SomeCase", true, "case details", &failed);
    session.finish(&mut tap);
    assert!(!session.failed());
    assert_eq!(session.stats.failed, 0);
    assert_eq!(tap.lines[0], "not ok 1 - SomeCase");
    assert_eq!(tap.lines[1], "# case details");
    assert_eq!(tap.lines[2], "# boom");
}

#[test]
fn enforced_recommended_failure_counts() {
    let mut tap = Tap::new();
    let mut session = Session::new(1, false, true);
    let failed = outcome(Case::Failed, vec!["boom"]);
    session.record_case(&mut tap, "SomeCase", true, "case details", &failed);
    assert!(session.failed());
    assert_eq!(session.stats.failed, 1);
}

#[test]
fn required_failure_always_counts() {
    let mut tap = Tap::new();
    let mut session = Session::new(1, false, false);
    let failed = outcome(Case::Failed, vec!["boom"]);
    session.record_case(&mut tap, "SomeCase", false, "case details", &failed);
    assert!(session.failed());
}

#[test]
fn passed_case_gets_an_ok_line() {
    let mut tap = Tap::new();
    let mut session = Session::new(2, false, false);
    session.record_case(&mut tap, "First", false, "", &outcome(Case::Passed, vec![]));
    assert_eq!(session.stats.passed, 1);
    assert_eq!(tap.lines, vec!["ok 1 - First".to_string()]);
    assert!(!session.halted);
}

#[test]
fn skipped_case_counts_as_skipped() {
    let mut tap = Tap::new();
    let mut session = Session::new(1, false, false);
    let skipped = outcome(Case::Skipped, vec!["skipped: later"]);
    session.record_case(&mut tap, "SkipMe", false, "", &skipped);
    assert_eq!(session.stats.skipped, 1);
    assert_eq!(session.stats.failed, 0);
    assert_eq!(tap.lines[0], "ok 1 - SkipMe");
    assert_eq!(tap.lines[1], "# skipped: later");
}

#[test]
fn exit_early_halts_after_a_failure() {
    let mut tap = Tap::new();
    let mut session = Session::new(3, true, false);
    session.record_case(&mut tap, "First", false, "", &outcome(Case::Failed, vec![]));
    assert!(session.halted);
}

#[test]
fn transport_error_fails_and_halts() {
    let mut tap = Tap::new();
    let mut session = Session::new(3, false, false);
    session.on_transport_error(&mut tap, "First", "failed to write payload length to stdin");
    assert!(session.halted);
    assert_eq!(session.stats.failed, 1);
    assert_eq!(tap.lines[0], "not ok 1 - First");
    assert_eq!(tap.lines[1], "# failed to write payload length to stdin");
}

#[test]
fn sequence_numbers_are_one_based_and_increasing() {
    let mut tap = Tap::new();
    let mut session = Session::new(2, false, false);
    session.record_case(&mut tap, "A", false, "", &outcome(Case::Passed, vec![]));
    session.record_case(&mut tap, "B", false, "", &outcome(Case::Passed, vec![]));
    assert_eq!(tap.lines, vec!["ok 1 - A".to_string(), "ok 2 - B".to_string()]);
}

#[test]
fn finish_reports_verdict_and_counters() {
    let mut tap = Tap::new();
    let mut session = Session::new(2, false, false);
    session.record_case(&mut tap, "A", false, "", &outcome(Case::Passed, vec![]));
    session.record_case(&mut tap, "B", false, "", &outcome(Case::Passed, vec![]));
    session.finish(&mut tap);
    assert_eq!(session.stats.percentile, 100);
    assert_eq!(tap.lines[2], "# test suite has succeeded (100%)");
    assert_eq!(tap.lines[3], "# 2 passed\n# 0 skipped\n# 0 failed");
}

#[test]
fn finish_reports_failure_with_percentage() {
    let mut tap = Tap::new();
    let mut session = Session::new(2, false, false);
    session.record_case(&mut tap, "A", false, "", &outcome(Case::Passed, vec![]));
    session.record_case(&mut tap, "B", false, "d", &outcome(Case::Failed, vec!["x"]));
    session.finish(&mut tap);
    assert_eq!(session.stats.percentile, 50);
    assert!(session.failed());
    let last_but_one = &tap.lines[tap.lines.len() - 2];
    assert_eq!(last_but_one, "# test suite has failed (50%)");
}

#[test]
fn begin_emits_plan_and_banner() {
    let mut tap = Tap::new();
    let session = Session::new(7, false, false);
    session.begin(&mut tap);
    assert_eq!(
        tap.lines,
        vec![
            "TAP version 14".to_string(),
            "1..7".to_string(),
            "# conform - a conformance test runner".to_string(),
        ]
    );
}
