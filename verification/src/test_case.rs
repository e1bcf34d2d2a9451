//! One conformance case: its unique name, its level, the declared message
//! type's dialect, the request payload it sends, and the assertion mode that
//! judges the answer. A case is immutable once constructed.

use vstd::prelude::*;

use base64::Engine;

verus! {

/// A case's classification: `Required` cases must pass; `Recommended` cases
/// are advisory and may be downgraded when they fail.
#[derive(PartialEq, Eq, Structural, Clone, Copy, Debug)]
pub enum Level {
    Required,
    Recommended,
}

impl Level {
    /// The level a suite's numeric code stands for: 0 is required, 1 is
    /// recommended; other codes are not levels.
    pub fn from_code(code: i32) -> (r: Level)
        requires
            0 <= code <= 1,
        ensures
            r == (if code == 0 {
                Level::Required
            } else {
                Level::Recommended
            }),
    {
        if code == 0 {
            Level::Required
        } else {
            Level::Recommended
        }
    }

    /// The level's name.
    pub fn label(&self) -> (r: String)
        ensures
            self is Required ==> r@ == "Required"@,
            self is Recommended ==> r@ == "Recommended"@,
    {
        match self {
            Level::Required => "Required".to_owned(),
            Level::Recommended => "Recommended".to_owned(),
        }
    }
}

/// How a case judges the subject's answer.
pub enum AssertBy {
    /// The answer's payload must decode to the same message as these
    /// expected bytes; the flag reserves a stricter byte-level comparison
    /// that the comparison logic does not consult.
    Equivalence(Vec<u8>, bool),
    /// The subject must report a parse error.
    ParseError,
    /// The subject must report a serialize error.
    SerializationError,
    /// The answer must be JSON satisfying the registered predicate for this
    /// case's name.
    Validator,
}

impl AssertBy {
    /// The assertion mode a suite's kind string stands for.
    pub fn from_kind(kind: &str, equivalent: Vec<u8>, same_wire: bool) -> (r: Option<AssertBy>)
        ensures
            kind@ == "equivalence"@ ==> (r matches Some(a) && a matches AssertBy::Equivalence(e, w)
                && e@ == equivalent@ && w == same_wire),
            kind@ == "f_parse"@ ==> r == Some(AssertBy::ParseError),
            kind@ == "f_serialize"@ ==> r == Some(AssertBy::SerializationError),
            kind@ == "json_validator"@ ==> r == Some(AssertBy::Validator),
            kind@ != "equivalence"@ && kind@ != "f_parse"@ && kind@ != "f_serialize"@ && kind@
                != "json_validator"@ ==> r is None,
    {
        proof {
            reveal_strlit("equivalence");
            reveal_strlit("f_parse");
            reveal_strlit("f_serialize");
            reveal_strlit("json_validator");
            assert("equivalence"@.len() == 11);
            assert("f_parse"@.len() == 7);
            assert("json_validator"@.len() == 14);
            assert("equivalence"@[0] == 'e' && "f_serialize"@[0] == 'f');
            assert("equivalence"@ != "f_parse"@);
            assert("equivalence"@ != "f_serialize"@);
            assert("equivalence"@ != "json_validator"@);
            assert("f_parse"@ != "f_serialize"@);
            assert("f_parse"@ != "json_validator"@);
            assert("f_serialize"@ != "json_validator"@);
        }
        if crate::strutil::str_eq(kind, "equivalence") {
            Some(AssertBy::Equivalence(equivalent, same_wire))
        } else if crate::strutil::str_eq(kind, "f_parse") {
            Some(AssertBy::ParseError)
        } else if crate::strutil::str_eq(kind, "f_serialize") {
            Some(AssertBy::SerializationError)
        } else if crate::strutil::str_eq(kind, "json_validator") {
            Some(AssertBy::Validator)
        } else {
            None
        }
    }
}

/// One conformance case.
pub struct TestCase {
    pub name: String,
    pub level: Level,
    pub syntax: String,
    pub payload: Vec<u8>,
    pub assertion: AssertBy,
}

impl TestCase {
    pub fn is_recommended(&self) -> (r: bool)
        ensures
            r == (self.level is Recommended),
    {
        match self.level {
            Level::Recommended => true,
            Level::Required => false,
        }
    }

    pub fn is_required(&self) -> (r: bool)
        ensures
            r == (self.level is Required),
    {
        match self.level {
            Level::Required => true,
            Level::Recommended => false,
        }
    }

    /// Renders the case for a diagnostic: its dialect, its level, and its
    /// payload in base64.
    pub fn describe(&self) -> (r: String)
        requires
            self.payload@.len() * 4 <= usize::MAX,
        ensures
            r@ == "syntax: "@ + self.syntax@ + "\nlevel: "@ + (if self.level is Required {
                "Required"@
            } else {
                "Recommended"@
            }) + "\npayload: "@ + base64_of(self.payload@),
    {
        let mut s: String = "syntax: ".to_owned();
        s.append(self.syntax.as_str());
        s.append("\nlevel: ");
        let label = self.level.label();
        s.append(label.as_str());
        s.append("\npayload: ");
        let b64 = base64_encode(&self.payload);
        s.append(b64.as_str());
        s
    }
}

/// What the standard padded base64 alphabet encodes a byte sequence to, a
/// function of the bytes alone.
pub uninterp spec fn base64_of(bytes: Seq<u8>) -> Seq<char>;

/// Relies on base64's `general_purpose::STANDARD` engine: the encoding is a
/// function of the input bytes alone, four characters for every whole or
/// partial group of three bytes, padded. The length bound keeps clear of the
/// engine's overflow panic when sizing its output.
#[verifier::external_body]
pub fn base64_encode(bytes: &Vec<u8>) -> (r: String)
    requires
        bytes@.len() * 4 <= usize::MAX,
    ensures
        r@ == base64_of(bytes@),
        r@.len() == 4 * ((bytes@.len() + 2) / 3),
{
    base64::engine::general_purpose::STANDARD.encode(bytes.as_slice())
}

} // verus!
