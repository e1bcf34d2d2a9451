//! The validator registry: a fixed mapping from test-case name to a
//! predicate over a parsed JSON document, built once and never mutated.
//!
//! Predicate families: an object must hold every listed key; an object must
//! lack a key; a key must hold text, or an integer, equal to an expected
//! value; a key must hold null; the object must be empty. A name outside the
//! registry resolves to a placeholder predicate that always fails with
//! "unimplemented validator" — never a silent pass.

use crate::json::{spec_lookup, object_contains_key, object_get, JsonValue};
use crate::strutil::{i64_string, spec_dec_signed, str_eq};
use vstd::prelude::*;

verus! {

/// One predicate over a parsed JSON document.
pub enum Validator {
    /// The document is an object holding every listed key.
    HasKeys(Vec<String>),
    /// The document is an object lacking the key.
    LacksKey(String),
    /// The document is an object whose key holds exactly this text.
    KeyEqualsText(String, String),
    /// The document is an object whose key holds exactly this integer.
    KeyEqualsInt(String, i64),
    /// The document is an object whose key holds null.
    KeyIsNull(String),
    /// The document is an object with no keys.
    EmptyObject,
    /// The placeholder for a name outside the registry: always fails.
    Unimplemented,
}

/// The mathematical shape of a [`Validator`].
pub enum ValidatorModel {
    HasKeys(Seq<Seq<char>>),
    LacksKey(Seq<char>),
    KeyEqualsText(Seq<char>, Seq<char>),
    KeyEqualsInt(Seq<char>, i64),
    KeyIsNull(Seq<char>),
    EmptyObject,
    Unimplemented,
}

impl View for Validator {
    type V = ValidatorModel;

    open spec fn view(&self) -> ValidatorModel {
        match self {
            Validator::HasKeys(ks) => ValidatorModel::HasKeys(ks.deep_view()),
            Validator::LacksKey(k) => ValidatorModel::LacksKey(k@),
            Validator::KeyEqualsText(k, v) => ValidatorModel::KeyEqualsText(k@, v@),
            Validator::KeyEqualsInt(k, v) => ValidatorModel::KeyEqualsInt(k@, *v),
            Validator::KeyIsNull(k) => ValidatorModel::KeyIsNull(k@),
            Validator::EmptyObject => ValidatorModel::EmptyObject,
            Validator::Unimplemented => ValidatorModel::Unimplemented,
        }
    }
}

pub open spec fn msg_not_object() -> Seq<char> {
    "value is not an object."@
}

pub open spec fn msg_missing_key(k: Seq<char>) -> Seq<char> {
    "json value doesn't contain the key `"@ + k + "`"@
}

pub open spec fn msg_should_contain_key(k: Seq<char>) -> Seq<char> {
    "json value should contain the key `"@ + k + "`"@
}

pub open spec fn msg_not_text(k: Seq<char>) -> Seq<char> {
    k + " is not a as_str."@
}

pub open spec fn msg_not_int(k: Seq<char>) -> Seq<char> {
    k + " is not a as_i64."@
}

pub open spec fn msg_not_null(k: Seq<char>) -> Seq<char> {
    k + " is not null"@
}

pub open spec fn msg_not_equal_text(k: Seq<char>, v: Seq<char>) -> Seq<char> {
    k + " was not equal to "@ + v
}

pub open spec fn msg_not_equal_int(k: Seq<char>, v: i64) -> Seq<char> {
    k + " was not equal to "@ + spec_dec_signed(v as int)
}

pub open spec fn msg_not_empty() -> Seq<char> {
    "value should be an empty object."@
}

pub open spec fn msg_unimplemented() -> Seq<char> {
    "unimplemented validator"@
}

/// The first listed key missing from the object entries, if any.
pub open spec fn first_missing_key(
    keys: Seq<Seq<char>>,
    entries: Seq<(String, JsonValue)>,
) -> Option<Seq<char>>
    decreases keys.len(),
{
    if keys.len() == 0 {
        None
    } else if spec_lookup(entries, keys[0]) is None {
        Some(keys[0])
    } else {
        first_missing_key(keys.drop_first(), entries)
    }
}

/// The violation a predicate reports on a document, or `None` when the
/// document satisfies it.
pub open spec fn spec_violation(v: ValidatorModel, doc: JsonValue) -> Option<Seq<char>> {
    if v is Unimplemented {
        Some(msg_unimplemented())
    } else {
        match doc {
            JsonValue::Object(entries) => match v {
                ValidatorModel::HasKeys(keys) => match first_missing_key(keys, entries@) {
                    Some(k) => Some(msg_missing_key(k)),
                    None => None,
                },
                ValidatorModel::LacksKey(k) => if spec_lookup(entries@, k) is Some {
                    Some(msg_should_contain_key(k))
                } else {
                    None
                },
                ValidatorModel::KeyEqualsText(k, expected) => match spec_lookup(entries@, k) {
                    None => Some(msg_should_contain_key(k)),
                    Some(x) => match x {
                        JsonValue::Text(t) => if t@ == expected {
                            None
                        } else {
                            Some(msg_not_equal_text(k, expected))
                        },
                        _ => Some(msg_not_text(k)),
                    },
                },
                ValidatorModel::KeyEqualsInt(k, expected) => match spec_lookup(entries@, k) {
                    None => Some(msg_should_contain_key(k)),
                    Some(x) => match x {
                        JsonValue::IntNumber(i) => if i == expected {
                            None
                        } else {
                            Some(msg_not_equal_int(k, expected))
                        },
                        _ => Some(msg_not_int(k)),
                    },
                },
                ValidatorModel::KeyIsNull(k) => match spec_lookup(entries@, k) {
                    None => Some(msg_should_contain_key(k)),
                    Some(x) => if x is Null {
                        None
                    } else {
                        Some(msg_not_null(k))
                    },
                },
                ValidatorModel::EmptyObject => if entries@.len() == 0 {
                    None
                } else {
                    Some(msg_not_empty())
                },
                ValidatorModel::Unimplemented => Some(msg_unimplemented()),
            },
            _ => Some(msg_not_object()),
        }
    }
}

fn build_missing_key_msg(k: &str) -> (r: String)
    ensures
        r@ == msg_missing_key(k@),
{
    let mut s: String = "json value doesn't contain the key `".to_owned();
    s.append(k);
    s.append("`");
    s
}

fn build_should_contain_msg(k: &str) -> (r: String)
    ensures
        r@ == msg_should_contain_key(k@),
{
    let mut s: String = "json value should contain the key `".to_owned();
    s.append(k);
    s.append("`");
    s
}

impl Validator {
    /// Runs the predicate on a document: `Ok` when it is satisfied, the
    /// violation text otherwise.
    pub fn check(&self, doc: &JsonValue) -> (r: Result<(), String>)
        ensures
            match spec_violation(self@, *doc) {
                None => r is Ok,
                Some(msg) => r matches Err(m) && m@ == msg,
            },
    {
        if let Validator::Unimplemented = self {
            return Err("unimplemented validator".to_owned());
        }
        let entries = match doc {
            JsonValue::Object(entries) => entries,
            _ => {
                return Err("value is not an object.".to_owned());
            },
        };
        match self {
            Validator::HasKeys(keys) => {
                proof {
                    assert(self@->HasKeys_0 =~= keys.deep_view());
                }
                let n = keys.len();
                let mut i: usize = 0;
                proof {
                    assert(keys.deep_view().skip(0) =~= keys.deep_view());
                }
                while i < n
                    invariant
                        i <= n,
                        n == keys@.len(),
                        keys.deep_view().len() == n,
                        self@ == ValidatorModel::HasKeys(keys.deep_view()),
                        doc matches JsonValue::Object(e) && e == *entries,
                        first_missing_key(keys.deep_view(), entries@) == first_missing_key(
                            keys.deep_view().skip(i as int),
                            entries@,
                        ),
                    decreases n - i,
                {
                    proof {
                        assert(keys.deep_view().skip(i as int)[0] == keys.deep_view()[i as int]);
                        assert(keys.deep_view()[i as int] == keys@[i as int]@);
                        assert(keys.deep_view().skip(i as int).drop_first() =~= keys.deep_view().skip(
                            i as int + 1,
                        ));
                    }
                    if !object_contains_key(entries, keys[i].as_str()) {
                        proof {
                            assert(first_missing_key(keys.deep_view().skip(i as int), entries@)
                                == Some(keys.deep_view()[i as int]));
                        }
                        return Err(build_missing_key_msg(keys[i].as_str()));
                    }
                    i = i + 1;
                }
                proof {
                    assert(keys.deep_view().skip(n as int) =~= Seq::<Seq<char>>::empty());
                }
                Ok(())
            },
            Validator::LacksKey(k) => {
                if object_contains_key(entries, k.as_str()) {
                    Err(build_should_contain_msg(k.as_str()))
                } else {
                    Ok(())
                }
            },
            Validator::KeyEqualsText(k, expected) => {
                let x = match object_get(entries, k.as_str()) {
                    None => {
                        return Err(build_should_contain_msg(k.as_str()));
                    },
                    Some(x) => x,
                };
                let t = match x {
                    JsonValue::Text(t) => t,
                    _ => {
                        let mut s: String = k.as_str().to_owned();
                        s.append(" is not a as_str.");
                        return Err(s);
                    },
                };
                if str_eq(t.as_str(), expected.as_str()) {
                    Ok(())
                } else {
                    let mut s: String = k.as_str().to_owned();
                    s.append(" was not equal to ");
                    s.append(expected.as_str());
                    Err(s)
                }
            },
            Validator::KeyEqualsInt(k, expected) => {
                let x = match object_get(entries, k.as_str()) {
                    None => {
                        return Err(build_should_contain_msg(k.as_str()));
                    },
                    Some(x) => x,
                };
                let i = match x {
                    JsonValue::IntNumber(i) => *i,
                    _ => {
                        let mut s: String = k.as_str().to_owned();
                        s.append(" is not a as_i64.");
                        return Err(s);
                    },
                };
                if i == *expected {
                    Ok(())
                } else {
                    let mut s: String = k.as_str().to_owned();
                    s.append(" was not equal to ");
                    let digits = i64_string(*expected);
                    s.append(digits.as_str());
                    Err(s)
                }
            },
            Validator::KeyIsNull(k) => {
                let x = match object_get(entries, k.as_str()) {
                    None => {
                        return Err(build_should_contain_msg(k.as_str()));
                    },
                    Some(x) => x,
                };
                match x {
                    JsonValue::Null => Ok(()),
                    _ => {
                        let mut s: String = k.as_str().to_owned();
                        s.append(" is not null");
                        Err(s)
                    },
                }
            },
            Validator::EmptyObject => {
                if entries.len() == 0 {
                    Ok(())
                } else {
                    Err("value should be an empty object.".to_owned())
                }
            },
            _ => Err("unimplemented validator".to_owned()),
        }
    }
}

/// The registry: the predicate for a case name, [`ValidatorModel::Unimplemented`]
/// for every name outside it.
pub open spec fn spec_validator_for(name: Seq<char>) -> ValidatorModel {
    if name == "Required.Proto3.JsonInput.FieldNameInLowerCamelCase.Validator"@ {
        ValidatorModel::HasKeys(seq!["fieldname1"@, "fieldName2"@, "FieldName3"@, "fieldName4"@])
    } else if name == "Required.Proto3.JsonInput.FieldNameWithNumbers.Validator"@ {
        ValidatorModel::HasKeys(seq!["field0name5"@, "field0Name6"@])
    } else if name == "Required.Proto3.JsonInput.FieldNameWithMixedCases.Validator"@ {
        ValidatorModel::HasKeys(
            seq![
                "fieldName7"@,
                "FieldName8"@,
                "fieldName9"@,
                "FieldName10"@,
                "FIELDNAME11"@,
                "FIELDName12"@,
            ],
        )
    } else if name == "Recommended.Proto3.JsonInput.FieldNameWithDoubleUnderscores.Validator"@ {
        ValidatorModel::HasKeys(
            seq![
                "FieldName13"@,
                "FieldName14"@,
                "fieldName15"@,
                "fieldName16"@,
                "fieldName17"@,
                "FieldName18"@,
            ],
        )
    } else if name == "Required.Proto3.JsonInput.SkipsDefaultPrimitive.Validator"@ {
        ValidatorModel::LacksKey("FieldName13"@)
    } else if name == "Recommended.Proto3.JsonInput.Int64FieldBeString.Validator"@ {
        ValidatorModel::KeyEqualsText("optionalInt64"@, "1"@)
    } else if name == "Recommended.Proto3.JsonInput.Uint64FieldBeString.Validator"@ {
        ValidatorModel::KeyEqualsText("optionalUint64"@, "1"@)
    } else if name == "Required.Proto3.JsonInput.EnumFieldUnknownValue.Validator"@ {
        ValidatorModel::KeyEqualsInt("optionalNestedEnum"@, 123)
    } else if name == "Recommended.Proto3.JsonInput.DurationHasZeroFractionalDigit.Validator"@ {
        ValidatorModel::KeyEqualsText("optionalDuration"@, "1s"@)
    } else if name == "Recommended.Proto3.JsonInput.DurationHas3FractionalDigits.Validator"@ {
        ValidatorModel::KeyEqualsText("optionalDuration"@, "1.010s"@)
    } else if name == "Recommended.Proto3.JsonInput.DurationHas6FractionalDigits.Validator"@ {
        ValidatorModel::KeyEqualsText("optionalDuration"@, "1.000010s"@)
    } else if name == "Recommended.Proto3.JsonInput.DurationHas9FractionalDigits.Validator"@ {
        ValidatorModel::KeyEqualsText("optionalDuration"@, "1.000000010s"@)
    } else if name == "Recommended.Proto3.JsonInput.TimestampZeroNormalized.Validator"@ {
        ValidatorModel::KeyEqualsText("optionalTimestamp"@, "1970-01-01T00:00:00Z"@)
    } else if name == "Recommended.Proto3.JsonInput.TimestampHasZeroFractionalDigit.Validator"@ {
        ValidatorModel::KeyEqualsText("optionalTimestamp"@, "1970-01-01T00:00:00Z"@)
    } else if name == "Recommended.Proto3.JsonInput.TimestampHas3FractionalDigits.Validator"@ {
        ValidatorModel::KeyEqualsText("optionalTimestamp"@, "1970-01-01T00:00:00.010Z"@)
    } else if name == "Recommended.Proto3.JsonInput.TimestampHas6FractionalDigits.Validator"@ {
        ValidatorModel::KeyEqualsText("optionalTimestamp"@, "1970-01-01T00:00:00.000010Z"@)
    } else if name == "Recommended.Proto3.JsonInput.TimestampHas9FractionalDigits.Validator"@ {
        ValidatorModel::KeyEqualsText("optionalTimestamp"@, "1970-01-01T00:00:00.000000010Z"@)
    } else if name == "Recommended.Proto3.JsonInput.NullValueInOtherOneofOldFormat.Validator"@ {
        ValidatorModel::KeyEqualsText("oneofNullValue"@, "NULL_VALUE"@)
    } else if name == "Recommended.Proto3.JsonInput.NullValueInOtherOneofNewFormat.Validator"@ {
        ValidatorModel::KeyIsNull("oneofNullValue"@)
    } else if name == "Recommended.Proto3.JsonInput.NullValueInNormalMessage.Validator"@ {
        ValidatorModel::EmptyObject
    } else if name == "Required.Proto2.JsonInput.StoresDefaultPrimitive.Validator"@ {
        ValidatorModel::KeyEqualsInt("FieldName13"@, 0)
    } else {
        ValidatorModel::Unimplemented
    }
}

/// Whether a case name has a registered predicate.
pub open spec fn spec_registered(name: Seq<char>) -> bool {
    !(spec_validator_for(name) is Unimplemented)
}

fn key_text(k: &str, expected: &str) -> (r: Validator)
    ensures
        r@ == ValidatorModel::KeyEqualsText(k@, expected@),
{
    Validator::KeyEqualsText(k.to_owned(), expected.to_owned())
}

fn key_int(k: &str, expected: i64) -> (r: Validator)
    ensures
        r@ == ValidatorModel::KeyEqualsInt(k@, expected),
{
    Validator::KeyEqualsInt(k.to_owned(), expected)
}

fn has_keys2(a: &str, b: &str) -> (r: Validator)
    ensures
        r@ == ValidatorModel::HasKeys(seq![a@, b@]),
{
    let mut ks: Vec<String> = Vec::new();
    ks.push(a.to_owned());
    ks.push(b.to_owned());
    proof {
        assert(ks.deep_view() =~= seq![a@, b@]);
    }
    Validator::HasKeys(ks)
}

fn has_keys4(a: &str, b: &str, c: &str, d: &str) -> (r: Validator)
    ensures
        r@ == ValidatorModel::HasKeys(seq![a@, b@, c@, d@]),
{
    let mut ks: Vec<String> = Vec::new();
    ks.push(a.to_owned());
    ks.push(b.to_owned());
    ks.push(c.to_owned());
    ks.push(d.to_owned());
    proof {
        assert(ks.deep_view() =~= seq![a@, b@, c@, d@]);
    }
    Validator::HasKeys(ks)
}

fn has_keys6(a: &str, b: &str, c: &str, d: &str, e: &str, f: &str) -> (r: Validator)
    ensures
        r@ == ValidatorModel::HasKeys(seq![a@, b@, c@, d@, e@, f@]),
{
    let mut ks: Vec<String> = Vec::new();
    ks.push(a.to_owned());
    ks.push(b.to_owned());
    ks.push(c.to_owned());
    ks.push(d.to_owned());
    ks.push(e.to_owned());
    ks.push(f.to_owned());
    proof {
        assert(ks.deep_view() =~= seq![a@, b@, c@, d@, e@, f@]);
    }
    Validator::HasKeys(ks)
}

impl Validator {
    /// Looks a case name up in the registry.
    pub fn for_case_name(name: &str) -> (v: Validator)
        ensures
            v@ == spec_validator_for(name@),
    {
        if str_eq(name, "Required.Proto3.JsonInput.FieldNameInLowerCamelCase.Validator") {
            has_keys4("fieldname1", "fieldName2", "FieldName3", "fieldName4")
        } else if str_eq(name, "Required.Proto3.JsonInput.FieldNameWithNumbers.Validator") {
            has_keys2("field0name5", "field0Name6")
        } else if str_eq(name, "Required.Proto3.JsonInput.FieldNameWithMixedCases.Validator") {
            has_keys6(
                "fieldName7",
                "FieldName8",
                "fieldName9",
                "FieldName10",
                "FIELDNAME11",
                "FIELDName12",
            )
        } else if str_eq(
            name,
            "Recommended.Proto3.JsonInput.FieldNameWithDoubleUnderscores.Validator",
        ) {
            has_keys6(
                "FieldName13",
                "FieldName14",
                "fieldName15",
                "fieldName16",
                "fieldName17",
                "FieldName18",
            )
        } else if str_eq(name, "Required.Proto3.JsonInput.SkipsDefaultPrimitive.Validator") {
            Validator::LacksKey("FieldName13".to_owned())
        } else if str_eq(name, "Recommended.Proto3.JsonInput.Int64FieldBeString.Validator") {
            key_text("optionalInt64", "1")
        } else if str_eq(name, "Recommended.Proto3.JsonInput.Uint64FieldBeString.Validator") {
            key_text("optionalUint64", "1")
        } else if str_eq(name, "Required.Proto3.JsonInput.EnumFieldUnknownValue.Validator") {
            key_int("optionalNestedEnum", 123)
        } else if str_eq(
            name,
            "Recommended.Proto3.JsonInput.DurationHasZeroFractionalDigit.Validator",
        ) {
            key_text("optionalDuration", "1s")
        } else if str_eq(name, "Recommended.Proto3.JsonInput.DurationHas3FractionalDigits.Validator") {
            key_text("optionalDuration", "1.010s")
        } else if str_eq(name, "Recommended.Proto3.JsonInput.DurationHas6FractionalDigits.Validator") {
            key_text("optionalDuration", "1.000010s")
        } else if str_eq(name, "Recommended.Proto3.JsonInput.DurationHas9FractionalDigits.Validator") {
            key_text("optionalDuration", "1.000000010s")
        } else if str_eq(name, "Recommended.Proto3.JsonInput.TimestampZeroNormalized.Validator") {
            key_text("optionalTimestamp", "1970-01-01T00:00:00Z")
        } else if str_eq(
            name,
            "Recommended.Proto3.JsonInput.TimestampHasZeroFractionalDigit.Validator",
        ) {
            key_text("optionalTimestamp", "1970-01-01T00:00:00Z")
        } else if str_eq(
            name,
            "Recommended.Proto3.JsonInput.TimestampHas3FractionalDigits.Validator",
        ) {
            key_text("optionalTimestamp", "1970-01-01T00:00:00.010Z")
        } else if str_eq(
            name,
            "Recommended.Proto3.JsonInput.TimestampHas6FractionalDigits.Validator",
        ) {
            key_text("optionalTimestamp", "1970-01-01T00:00:00.000010Z")
        } else if str_eq(
            name,
            "Recommended.Proto3.JsonInput.TimestampHas9FractionalDigits.Validator",
        ) {
            key_text("optionalTimestamp", "1970-01-01T00:00:00.000000010Z")
        } else if str_eq(
            name,
            "Recommended.Proto3.JsonInput.NullValueInOtherOneofOldFormat.Validator",
        ) {
            key_text("oneofNullValue", "NULL_VALUE")
        } else if str_eq(
            name,
            "Recommended.Proto3.JsonInput.NullValueInOtherOneofNewFormat.Validator",
        ) {
            Validator::KeyIsNull("oneofNullValue".to_owned())
        } else if str_eq(name, "Recommended.Proto3.JsonInput.NullValueInNormalMessage.Validator") {
            Validator::EmptyObject
        } else if str_eq(name, "Required.Proto2.JsonInput.StoresDefaultPrimitive.Validator") {
            key_int("FieldName13", 0)
        } else {
            Validator::Unimplemented
        }
    }
}

/// Placeholder predicates always fail, with the fixed violation text — a
/// name outside the registry can never pass.
pub proof fn lemma_unimplemented_always_fails(doc: JsonValue)
    ensures
        spec_violation(ValidatorModel::Unimplemented, doc) == Some(msg_unimplemented()),
{
}

/// On the empty object, every predicate that demands keys — has-keys with at
/// least one key, key-equals, key-is-null — fails, with a non-empty
/// violation text.
pub proof fn lemma_empty_object_fails_key_demands(v: ValidatorModel, doc: JsonValue)
    requires
        doc matches JsonValue::Object(entries) && entries@.len() == 0,
        (v matches ValidatorModel::HasKeys(keys) && keys.len() > 0) || v matches
            ValidatorModel::KeyEqualsText(_, _) || v matches ValidatorModel::KeyEqualsInt(_, _)
            || v matches ValidatorModel::KeyIsNull(_),
    ensures
        spec_violation(v, doc) matches Some(msg) && msg.len() > 0,
{
    let entries = doc->Object_0;
    assert(forall|k: Seq<char>| spec_lookup(entries@, k) is None);
    match v {
        ValidatorModel::HasKeys(keys) => {
            assert(first_missing_key(keys, entries@) == Some(keys[0]));
            reveal_strlit("json value doesn't contain the key `");
            assert(msg_missing_key(keys[0]).len() > 0);
        },
        ValidatorModel::KeyEqualsText(k, _) => {
            reveal_strlit("json value should contain the key `");
            assert(msg_should_contain_key(k).len() > 0);
        },
        ValidatorModel::KeyEqualsInt(k, _) => {
            reveal_strlit("json value should contain the key `");
            assert(msg_should_contain_key(k).len() > 0);
        },
        ValidatorModel::KeyIsNull(k) => {
            reveal_strlit("json value should contain the key `");
            assert(msg_should_contain_key(k).len() > 0);
        },
        _ => {
        },
    }
}

} // verus!
