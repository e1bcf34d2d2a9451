//! The library's own model of a parsed JSON document, and the bridge that
//! parses text into it.
//!
//! Validators read structure out of a document: whether it is an object,
//! which keys it holds, whether a value is text, an integer, or null. The
//! model holds exactly that as plain values; numbers keep their exact 64-bit
//! integer value where they have one and are otherwise opaque. Parsing
//! itself is done by an outside JSON parser behind a trusted bridge.

use crate::strutil::str_eq;
use vstd::prelude::*;

verus! {

/// A parsed JSON document.
pub enum JsonValue {
    Null,
    Bool(bool),
    /// A number with an exact 64-bit integer value.
    IntNumber(i64),
    /// Any other number: fractional, or out of 64-bit range.
    OtherNumber,
    Text(String),
    Array(Vec<JsonValue>),
    /// Object entries in document order; the parser resolves duplicate keys,
    /// so the keys are distinct.
    Object(Vec<(String, JsonValue)>),
}

#[verifier::external_type_specification]
#[verifier::external_body]
pub struct ExJsonValue(serde_json::Value);

/// What a parsed outside JSON document holds, as the library's model.
pub uninterp spec fn json_value_model(v: serde_json::Value) -> JsonValue;

/// Relies on `serde_json::Value`: maps each of its variants to the library's
/// model, one arm each — objects entry by entry in iteration order, numbers
/// through `Number::as_i64` to their integer value where they have one.
#[verifier::external_body]
fn value_to_model(v: serde_json::Value) -> (r: JsonValue)
    ensures
        r == json_value_model(v),
{
    match v {
        serde_json::Value::Null => JsonValue::Null,
        serde_json::Value::Bool(b) => JsonValue::Bool(b),
        serde_json::Value::Number(n) => match n.as_i64() {
            Some(i) => JsonValue::IntNumber(i),
            None => JsonValue::OtherNumber,
        },
        serde_json::Value::String(s) => JsonValue::Text(s),
        serde_json::Value::Array(xs) => JsonValue::Array(
            xs.into_iter().map(value_to_model).collect(),
        ),
        serde_json::Value::Object(m) => JsonValue::Object(
            m.into_iter().map(|(k, x)| (k, value_to_model(x))).collect(),
        ),
    }
}

/// What parsing a given text yields, a function of the text alone.
pub uninterp spec fn json_parse_of(s: Seq<char>) -> Option<JsonValue>;

/// Relies on `serde_json::from_str`: parses JSON text, deterministically in
/// the text alone; `None` when the text is not valid JSON. The parsed
/// document is handed over as the library's model.
#[verifier::external_body]
pub fn parse_json(text: &str) -> (r: Option<JsonValue>)
    ensures
        r == json_parse_of(text@),
{
    match serde_json::from_str::<serde_json::Value>(text) {
        Err(_) => None,
        Ok(v) => Some(value_to_model(v)),
    }
}

/// The value under `key` among object entries, first match.
pub open spec fn spec_lookup(entries: Seq<(String, JsonValue)>, key: Seq<char>) -> Option<
    JsonValue,
>
    decreases entries.len(),
{
    if entries.len() == 0 {
        None
    } else if entries[0].0@ == key {
        Some(entries[0].1)
    } else {
        spec_lookup(entries.drop_first(), key)
    }
}

/// Looks `key` up among object entries.
pub fn object_get<'a>(entries: &'a Vec<(String, JsonValue)>, key: &str) -> (r: Option<
    &'a JsonValue,
>)
    ensures
        match r {
            Some(v) => spec_lookup(entries@, key@) == Some(*v),
            None => spec_lookup(entries@, key@) is None,
        },
{
    let n = entries.len();
    let mut i: usize = 0;
    proof {
        assert(entries@.skip(0) =~= entries@);
    }
    while i < n
        invariant
            i <= n,
            n == entries@.len(),
            spec_lookup(entries@, key@) == spec_lookup(entries@.skip(i as int), key@),
        decreases n - i,
    {
        proof {
            assert(entries@.skip(i as int)[0] == entries@[i as int]);
            assert(entries@.skip(i as int).drop_first() =~= entries@.skip(i as int + 1));
        }
        if str_eq(entries[i].0.as_str(), key) {
            return Some(&entries[i].1);
        }
        i = i + 1;
    }
    proof {
        assert(entries@.skip(n as int) =~= Seq::<(String, JsonValue)>::empty());
    }
    None
}

/// Whether the object entries hold `key`.
pub fn object_contains_key(entries: &Vec<(String, JsonValue)>, key: &str) -> (r: bool)
    ensures
        r == (spec_lookup(entries@, key@) is Some),
{
    match object_get(entries, key) {
        Some(_) => true,
        None => false,
    }
}

} // verus!
