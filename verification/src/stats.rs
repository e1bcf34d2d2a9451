//! Run statistics: counters for passed, skipped and failed cases against a
//! total that is fixed when the run starts, and the derived pass percentage.
//!
//! The percentage excludes skipped cases from its denominator; a run in which
//! every case was skipped counts as vacuously 100%. Counters are held as
//! integers, so the percentage is the integer quotient `100 * passed /
//! (total - skipped)`.

use vstd::prelude::*;

verus! {

pub struct Stats {
    pub total: u32,
    pub passed: u32,
    pub skipped: u32,
    pub failed: u32,
    pub percentile: u32,
}

/// The pass percentage: `100 * passed / (total - skipped)`, with every-case-
/// skipped defined as 100.
pub open spec fn spec_percentile(total: nat, passed: nat, skipped: nat) -> nat {
    if total == skipped {
        100
    } else {
        100 * passed / (total - skipped) as nat
    }
}

impl Stats {
    /// The counters never exceed the fixed total.
    pub open spec fn wf(self) -> bool {
        self.passed + self.skipped + self.failed <= self.total
    }

    pub fn new(total: u32) -> (s: Stats)
        ensures
            s.total == total,
            s.passed == 0,
            s.skipped == 0,
            s.failed == 0,
            s.percentile == 0,
            s.wf(),
    {
        Stats { total, passed: 0, skipped: 0, failed: 0, percentile: 0 }
    }

    /// Whether the run as a whole counts as failed.
    pub fn failed(&self) -> (r: bool)
        ensures
            r == (self.failed > 0),
    {
        self.failed > 0
    }

    /// Derives the pass percentage from the counters.
    pub fn calculate(&mut self)
        requires
            old(self).wf(),
        ensures
            final(self).percentile == spec_percentile(
                old(self).total as nat,
                old(self).passed as nat,
                old(self).skipped as nat,
            ),
            final(self).total == old(self).total,
            final(self).passed == old(self).passed,
            final(self).skipped == old(self).skipped,
            final(self).failed == old(self).failed,
            final(self).wf(),
    {
        if self.total == self.skipped {
            self.percentile = 100;
        } else {
            let num: u64 = 100u64 * (self.passed as u64);
            let den: u64 = (self.total - self.skipped) as u64;
            let q: u64 = num / den;
            proof {
                let p = old(self).passed as u64;
                assert(p <= den);
                assert(q <= 100) by (nonlinear_arith)
                    requires
                        q == num / den,
                        num == 100 * p,
                        p <= den,
                        den > 0,
                ;
            }
            self.percentile = q as u32;
        }
    }
}

} // verus!
