//! The equivalence-suite case: an older shape of the case record in which
//! the level is a plain string and the expected bytes travel beside the
//! payload. Judged by [`crate::engine::case`], always by equivalence.

use crate::strutil::str_eq;
use crate::test_case::{base64_of, base64_encode};
use vstd::prelude::*;

verus! {

/// One equivalence-suite case.
pub struct Case {
    pub name: String,
    pub level: String,
    pub syntax: String,
    pub payload: Vec<u8>,
    pub equivalent: Vec<u8>,
    pub require_same_write_format: bool,
}

impl Case {
    pub fn is_recommended(&self) -> (r: bool)
        ensures
            r == (self.level@ == "Recommended"@),
    {
        str_eq(self.level.as_str(), "Recommended")
    }

    pub fn is_required(&self) -> (r: bool)
        ensures
            r == (self.level@ == "Required"@),
    {
        str_eq(self.level.as_str(), "Required")
    }

    /// Renders the case for a diagnostic: its dialect, its level, and its
    /// payload in base64.
    pub fn describe(&self) -> (r: String)
        requires
            self.payload@.len() * 4 <= usize::MAX,
        ensures
            r@ == "syntax: "@ + self.syntax@ + "\nlevel: "@ + self.level@ + "\npayload: "@
                + base64_of(self.payload@),
    {
        let mut s: String = "syntax: ".to_owned();
        s.append(self.syntax.as_str());
        s.append("\nlevel: ");
        s.append(self.level.as_str());
        s.append("\npayload: ");
        let b64 = base64_encode(&self.payload);
        s.append(b64.as_str());
        s
    }
}

} // verus!
