//! The run's sequential control state: which case number comes next, whether
//! the run has halted, and the counters. The application drives the loop —
//! sending each case down the pipe and collecting the raw answer — and hands
//! every outcome here; this module decides the counters, the report lines,
//! and when to stop.
//!
//! A failing case at the `Recommended` level, with the enforce flag unset,
//! is reported as failing but leaves the failed counter — the one the run's
//! verdict is read from — untouched.

use crate::engine::{spec_join_lines, Case, Outcome};
use crate::report::{diagnostic_line, not_ok_line, ok_line, plan_lines, Report};
use crate::stats::{spec_percentile, Stats};
use crate::strutil::{spec_dec, u64_string};
use vstd::prelude::*;

verus! {

/// One run's control state.
pub struct Session {
    pub stats: Stats,
    pub exit_early: bool,
    pub enforce_recommended: bool,
    /// The 1-based sequence number of the next case.
    pub next_number: u64,
    /// Set once the run must stop: after a transport error, or after a
    /// failure under the exit-early policy.
    pub halted: bool,
}

impl Session {
    /// The counters stay within the total, and the sequence number counts
    /// the cases handled so far.
    pub open spec fn wf(self) -> bool {
        &&& self.stats.wf()
        &&& 1 <= self.next_number
        &&& self.next_number - 1 <= self.stats.total
        &&& self.stats.passed + self.stats.skipped + self.stats.failed <= self.next_number - 1
    }

    /// How many cases have been handled.
    pub open spec fn processed(self) -> int {
        self.next_number - 1
    }

    pub fn new(total: u32, exit_early: bool, enforce_recommended: bool) -> (s: Session)
        ensures
            s.wf(),
            s.stats.total == total,
            s.stats.passed == 0,
            s.stats.skipped == 0,
            s.stats.failed == 0,
            s.exit_early == exit_early,
            s.enforce_recommended == enforce_recommended,
            s.processed() == 0,
            !s.halted,
    {
        Session {
            stats: Stats::new(total),
            exit_early,
            enforce_recommended,
            next_number: 1,
            halted: false,
        }
    }

    /// Opens the report: the plan for the whole suite, and a banner.
    pub fn begin<R: Report>(&self, rep: &mut R)
        ensures
            final(rep).lines() == old(rep).lines() + plan_lines(1, self.stats.total) + seq![
                diagnostic_line("conform - a conformance test runner"@),
            ],
    {
        rep.plan(1, self.stats.total);
        rep.diagnostic("conform - a conformance test runner");
        proof {
            assert(rep.lines() =~= old(rep).lines() + plan_lines(1, self.stats.total) + seq![
                diagnostic_line("conform - a conformance test runner"@),
            ]);
        }
    }

    /// Records one case's outcome: bumps the counter the status calls for,
    /// emits its report lines, and decides whether the run goes on.
    ///
    /// A passed case gets an `ok` line; a skipped one an `ok` line and its
    /// diagnostics; a failed one a `not ok` line, the case's description and
    /// its diagnostics. A failed `Recommended`-level case leaves the failed
    /// counter untouched unless the enforce flag is set — the report still
    /// shows it as `not ok`.
    pub fn record_case<R: Report>(
        &mut self,
        rep: &mut R,
        name: &str,
        recommended: bool,
        case_desc: &str,
        outcome: &Outcome,
    )
        requires
            old(self).wf(),
            !old(self).halted,
            old(self).processed() < old(self).stats.total,
        ensures
            final(self).wf(),
            final(self).processed() == old(self).processed() + 1,
            final(self).stats.total == old(self).stats.total,
            final(self).exit_early == old(self).exit_early,
            final(self).enforce_recommended == old(self).enforce_recommended,
            outcome@.case is Passed ==> {
                &&& final(self).stats.passed == old(self).stats.passed + 1
                &&& final(self).stats.skipped == old(self).stats.skipped
                &&& final(self).stats.failed == old(self).stats.failed
                &&& !final(self).halted
                &&& final(rep).lines() == old(rep).lines().push(
                    ok_line(old(self).next_number as u32, name@),
                )
            },
            outcome@.case is Skipped ==> {
                &&& final(self).stats.passed == old(self).stats.passed
                &&& final(self).stats.skipped == old(self).stats.skipped + 1
                &&& final(self).stats.failed == old(self).stats.failed
                &&& !final(self).halted
                &&& final(rep).lines() == old(rep).lines().push(ok_line(old(self).next_number as u32, name@)).push(
                    diagnostic_line(spec_join_lines(outcome@.diagnostics)),
                )
            },
            outcome@.case is Failed ==> {
                &&& final(self).stats.passed == old(self).stats.passed
                &&& final(self).stats.skipped == old(self).stats.skipped
                &&& final(self).stats.failed == old(self).stats.failed + (
                if recommended && !old(self).enforce_recommended {
                    0int
                } else {
                    1int
                })
                &&& final(self).halted == old(self).exit_early
                &&& final(rep).lines() == old(rep).lines().push(
                    not_ok_line(old(self).next_number as u32, name@),
                ).push(diagnostic_line(case_desc@)).push(
                    diagnostic_line(spec_join_lines(outcome@.diagnostics)),
                )
            },
    {
        let number = self.next_number as u32;
        match outcome.case {
            Case::Passed => {
                rep.ok(number, name);
                self.stats.passed = self.stats.passed + 1;
            },
            Case::Skipped => {
                rep.ok(number, name);
                let text = outcome.text();
                rep.diagnostic(text.as_str());
                self.stats.skipped = self.stats.skipped + 1;
            },
            Case::Failed => {
                rep.not_ok(number, name);
                rep.diagnostic(case_desc);
                let text = outcome.text();
                rep.diagnostic(text.as_str());
                if !(recommended && !self.enforce_recommended) {
                    self.stats.failed = self.stats.failed + 1;
                }
                if self.exit_early {
                    self.halted = true;
                }
            },
        }
        self.next_number = self.next_number + 1;
    }

    /// Records a transport failure on a case: the run cannot go on, the case
    /// counts as failed whatever its level.
    pub fn on_transport_error<R: Report>(&mut self, rep: &mut R, name: &str, error: &str)
        requires
            old(self).wf(),
            !old(self).halted,
            old(self).processed() < old(self).stats.total,
        ensures
            final(self).wf(),
            final(self).processed() == old(self).processed() + 1,
            final(self).stats.total == old(self).stats.total,
            final(self).stats.passed == old(self).stats.passed,
            final(self).stats.skipped == old(self).stats.skipped,
            final(self).stats.failed == old(self).stats.failed + 1,
            final(self).halted,
            final(rep).lines() == old(rep).lines().push(not_ok_line(old(self).next_number as u32, name@)).push(
                diagnostic_line(error@),
            ),
    {
        let number = self.next_number as u32;
        rep.not_ok(number, name);
        rep.diagnostic(error);
        self.stats.failed = self.stats.failed + 1;
        self.halted = true;
        self.next_number = self.next_number + 1;
    }

    /// Whether the run as a whole counts as failed.
    pub fn failed(&self) -> (r: bool)
        ensures
            r == (self.stats.failed > 0),
    {
        self.stats.failed()
    }

    /// Closes the run: derives the percentage and emits the verdict and the
    /// counter summary.
    pub fn finish<R: Report>(&mut self, rep: &mut R)
        requires
            old(self).wf(),
        ensures
            final(self).wf(),
            final(self).stats.percentile == spec_percentile(
                old(self).stats.total as nat,
                old(self).stats.passed as nat,
                old(self).stats.skipped as nat,
            ),
            final(self).stats.total == old(self).stats.total,
            final(self).stats.passed == old(self).stats.passed,
            final(self).stats.skipped == old(self).stats.skipped,
            final(self).stats.failed == old(self).stats.failed,
            final(self).halted == old(self).halted,
            final(rep).lines() == old(rep).lines().push(
                diagnostic_line(
                    (if old(self).stats.failed > 0 {
                        "test suite has failed ("@
                    } else {
                        "test suite has succeeded ("@
                    }) + spec_dec(
                        spec_percentile(
                            old(self).stats.total as nat,
                            old(self).stats.passed as nat,
                            old(self).stats.skipped as nat,
                        ),
                    ) + "%)"@,
                ),
            ).push(
                diagnostic_line(
                    spec_dec(old(self).stats.passed as nat) + " passed\n"@ + spec_dec(
                        old(self).stats.skipped as nat,
                    ) + " skipped\n"@ + spec_dec(old(self).stats.failed as nat) + " failed"@,
                ),
            ),
    {
        self.stats.calculate();
        let mut verdict: String = if self.stats.failed > 0 {
            "test suite has failed (".to_owned()
        } else {
            "test suite has succeeded (".to_owned()
        };
        let digits = u64_string(self.stats.percentile as u64);
        verdict.append(digits.as_str());
        verdict.append("%)");
        rep.diagnostic(verdict.as_str());
        let mut summary = u64_string(self.stats.passed as u64);
        summary.append(" passed\n");
        let sk = u64_string(self.stats.skipped as u64);
        summary.append(sk.as_str());
        summary.append(" skipped\n");
        let fl = u64_string(self.stats.failed as u64);
        summary.append(fl.as_str());
        summary.append(" failed");
        rep.diagnostic(summary.as_str());
    }
}

} // verus!
