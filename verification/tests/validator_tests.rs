use conform::json::JsonValue;
use conform::validator::Validator;

fn obj(entries: Vec<(&str, JsonValue)>) -> JsonValue {
    JsonValue::Object(
        entries.into_iter().map(|(k, v)| (k.to_string(), v)).collect(),
    )
}

fn keys_obj(keys: &[&str]) -> JsonValue {
    obj(keys.iter().map(|k| (*k, JsonValue::Null)).collect())
}

fn check_name(name: &str, doc: &JsonValue) -> Result<(), String> {
    Validator::for_case_name(name).check(doc)
}

#[test]
fn lower_camel_case_keys_satisfy() {
    let doc = keys_obj(&["fieldname1", "fieldName2", "FieldName3", "fieldName4"]);
    assert_eq!(
        check_name("Required.Proto3.JsonInput.FieldNameInLowerCamelCase.Validator", &doc),
        Ok(())
    );
}

#[test]
fn number_keys_satisfy() {
    let doc = keys_obj(&["field0name5", "field0Name6"]);
    assert_eq!(
        check_name("Required.Proto3.JsonInput.FieldNameWithNumbers.Validator", &doc),
        Ok(())
    );
}

#[test]
fn mixed_case_keys_satisfy() {
    let doc = keys_obj(&[
        "fieldName7",
        "FieldName8",
        "fieldName9",
        "FieldName10",
        "FIELDNAME11",
        "FIELDName12",
    ]);
    assert_eq!(
        check_name("Required.Proto3.JsonInput.FieldNameWithMixedCases.Validator", &doc),
        Ok(())
    );
}

#[test]
fn double_underscore_keys_satisfy() {
    let doc = keys_obj(&[
        "FieldName13",
        "FieldName14",
        "fieldName15",
        "fieldName16",
        "fieldName17",
        "FieldName18",
    ]);
    assert_eq!(
        check_name(
            "Recommended.Proto3.JsonInput.FieldNameWithDoubleUnderscores.Validator",
            &doc,
        ),
        Ok(())
    );
}

#[test]
fn absent_default_satisfies_lacks_key() {
    assert_eq!(
        check_name("Required.Proto3.JsonInput.SkipsDefaultPrimitive.Validator", &obj(vec![])),
        Ok(())
    );
}

#[test]
fn present_key_violates_lacks_key() {
    let doc = keys_obj(&["FieldName13"]);
    let r = check_name("Required.Proto3.JsonInput.SkipsDefaultPrimitive.Validator", &doc);
    assert_eq!(
        r,
        Err("json value should contain the key `FieldName13`".to_string())
    );
}

#[test]
fn int64_as_string_satisfies() {
    let doc = obj(vec![("optionalInt64", JsonValue::Text("1".to_string()))]);
    assert_eq!(
        check_name("Recommended.Proto3.JsonInput.Int64FieldBeString.Validator", &doc),
        Ok(())
    );
}

#[test]
fn uint64_as_string_satisfies() {
    let doc = obj(vec![("optionalUint64", JsonValue::Text("1".to_string()))]);
    assert_eq!(
        check_name("Recommended.Proto3.JsonInput.Uint64FieldBeString.Validator", &doc),
        Ok(())
    );
}

#[test]
fn unknown_enum_value_satisfies() {
    let doc = obj(vec![("optionalNestedEnum", JsonValue::IntNumber(123))]);
    assert_eq!(
        check_name("Required.Proto3.JsonInput.EnumFieldUnknownValue.Validator", &doc),
        Ok(())
    );
}

#[test]
fn wrong_enum_value_reports_expected() {
    let doc = obj(vec![("optionalNestedEnum", JsonValue::IntNumber(5))]);
    let r = check_name("Required.Proto3.JsonInput.EnumFieldUnknownValue.Validator", &doc);
    assert_eq!(r, Err("optionalNestedEnum was not equal to 123".to_string()));
}

#[test]
fn durations_satisfy() {
    let names_and_values = [
        ("Recommended.Proto3.JsonInput.DurationHasZeroFractionalDigit.Validator", "1s"),
        ("Recommended.Proto3.JsonInput.DurationHas3FractionalDigits.Validator", "1.010s"),
        ("Recommended.Proto3.JsonInput.DurationHas6FractionalDigits.Validator", "1.000010s"),
        ("Recommended.Proto3.JsonInput.DurationHas9FractionalDigits.Validator", "1.000000010s"),
    ];
    for (name, value) in names_and_values {
        let doc = obj(vec![("optionalDuration", JsonValue::Text(value.to_string()))]);
        assert_eq!(check_name(name, &doc), Ok(()));
    }
}

#[test]
fn timestamps_satisfy() {
    let names_and_values = [
        ("Recommended.Proto3.JsonInput.TimestampZeroNormalized.Validator", "1970-01-01T00:00:00Z"),
        (
            "Recommended.Proto3.JsonInput.TimestampHasZeroFractionalDigit.Validator",
            "1970-01-01T00:00:00Z",
        ),
        (
            "Recommended.Proto3.JsonInput.TimestampHas3FractionalDigits.Validator",
            "1970-01-01T00:00:00.010Z",
        ),
        (
            "Recommended.Proto3.JsonInput.TimestampHas6FractionalDigits.Validator",
            "1970-01-01T00:00:00.000010Z",
        ),
        (
            "Recommended.Proto3.JsonInput.TimestampHas9FractionalDigits.Validator",
            "1970-01-01T00:00:00.000000010Z",
        ),
    ];
    for (name, value) in names_and_values {
        let doc = obj(vec![("optionalTimestamp", JsonValue::Text(value.to_string()))]);
        assert_eq!(check_name(name, &doc), Ok(()));
    }
}

#[test]
fn null_oneof_old_format_satisfies() {
    let doc = obj(vec![("oneofNullValue", JsonValue::Text("NULL_VALUE".to_string()))]);
    assert_eq!(
        check_name("Recommended.Proto3.JsonInput.NullValueInOtherOneofOldFormat.Validator", &doc),
        Ok(())
    );
}

#[test]
fn null_oneof_new_format_satisfies() {
    let doc = obj(vec![("oneofNullValue", JsonValue::Null)]);
    assert_eq!(
        check_name("Recommended.Proto3.JsonInput.NullValueInOtherOneofNewFormat.Validator", &doc),
        Ok(())
    );
}

#[test]
fn null_in_normal_message_needs_empty_object() {
    assert_eq!(
        check_name("Recommended.Proto3.JsonInput.NullValueInNormalMessage.Validator", &obj(vec![])),
        Ok(())
    );
    let r = check_name(
        "Recommended.Proto3.JsonInput.NullValueInNormalMessage.Validator",
        &keys_obj(&["a"]),
    );
    assert_eq!(r, Err("value should be an empty object.".to_string()));
}

#[test]
fn stored_default_satisfies() {
    let doc = obj(vec![("FieldName13", JsonValue::IntNumber(0))]);
    assert_eq!(
        check_name("Required.Proto2.JsonInput.StoresDefaultPrimitive.Validator", &doc),
        Ok(())
    );
}

#[test]
fn empty_object_fails_every_key_demanding_predicate() {
    let empty = obj(vec![]);
    let demanding = [
        "Required.Proto3.JsonInput.FieldNameInLowerCamelCase.Validator",
        "Required.Proto3.JsonInput.FieldNameWithNumbers.Validator",
        "Required.Proto3.JsonInput.FieldNameWithMixedCases.Validator",
        "Recommended.Proto3.JsonInput.FieldNameWithDoubleUnderscores.Validator",
        "Recommended.Proto3.JsonInput.Int64FieldBeString.Validator",
        "Recommended.Proto3.JsonInput.Uint64FieldBeString.Validator",
        "Required.Proto3.JsonInput.EnumFieldUnknownValue.Validator",
        "Recommended.Proto3.JsonInput.DurationHasZeroFractionalDigit.Validator",
        "Recommended.Proto3.JsonInput.TimestampZeroNormalized.Validator",
        "Recommended.Proto3.JsonInput.NullValueInOtherOneofOldFormat.Validator",
        "Recommended.Proto3.JsonInput.NullValueInOtherOneofNewFormat.Validator",
        "Required.Proto2.JsonInput.StoresDefaultPrimitive.Validator",
    ];
    for name in demanding {
        match check_name(name, &empty) {
            Err(msg) => assert!(!msg.is_empty(), "empty violation for {}", name),
            Ok(()) => panic!("{} passed on the empty object", name),
        }
    }
}

#[test]
fn missing_key_names_the_key() {
    let doc = keys_obj(&["fieldname1"]);
    let r = check_name("Required.Proto3.JsonInput.FieldNameInLowerCamelCase.Validator", &doc);
    assert_eq!(
        r,
        Err("json value doesn't contain the key `fieldName2`".to_string())
    );
}

#[test]
fn wrong_type_names_the_accessor() {
    let doc = obj(vec![("optionalInt64", JsonValue::IntNumber(1))]);
    let r = check_name("Recommended.Proto3.JsonInput.Int64FieldBeString.Validator", &doc);
    assert_eq!(r, Err("optionalInt64 is not a as_str.".to_string()));
}

#[test]
fn non_object_is_rejected() {
    let r = check_name(
        "Required.Proto3.JsonInput.FieldNameInLowerCamelCase.Validator",
        &JsonValue::Bool(true),
    );
    assert_eq!(r, Err("value is not an object.".to_string()));
}

#[test]
fn unregistered_name_always_fails() {
    let r = check_name("Some.Unknown.Case", &obj(vec![]));
    assert_eq!(r, Err("unimplemented validator".to_string()));
}
