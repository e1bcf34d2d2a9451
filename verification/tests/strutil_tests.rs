use conform::strutil::{i64_string, parse_env, str_eq, u64_string};
use conform::test_case::{AssertBy, Level, TestCase};

#[test]
fn decimal_rendering() {
    assert_eq!(u64_string(0), "0");
    assert_eq!(u64_string(7), "7");
    assert_eq!(u64_string(12345), "12345");
    assert_eq!(u64_string(u64::MAX), "18446744073709551615");
}

#[test]
fn signed_decimal_rendering() {
    assert_eq!(i64_string(0), "0");
    assert_eq!(i64_string(123), "123");
    assert_eq!(i64_string(-7), "-7");
    assert_eq!(i64_string(i64::MIN), "-9223372036854775808");
}

#[test]
fn string_equality_is_by_characters() {
    assert!(str_eq("abc", "abc"));
    assert!(!str_eq("abc", "abd"));
    assert!(!str_eq("abc", "ab"));
}

#[test]
fn env_override_splits_at_the_first_equals() {
    let (k, v) = parse_env(&"KEY=VALUE".to_string());
    assert_eq!(k, "KEY");
    assert_eq!(v, "VALUE");
}

#[test]
fn env_override_value_stops_at_a_second_equals() {
    let (k, v) = parse_env(&"A=B=C".to_string());
    assert_eq!(k, "A");
    assert_eq!(v, "B");
}

#[test]
fn level_codes_and_labels() {
    assert!(matches!(Level::from_code(0), Level::Required));
    assert!(matches!(Level::from_code(1), Level::Recommended));
    assert_eq!(Level::Required.label(), "Required");
    assert_eq!(Level::Recommended.label(), "Recommended");
}

#[test]
fn assertion_kinds_map_to_modes() {
    assert!(matches!(
        AssertBy::from_kind("equivalence", vec![1u8], true),
        Some(AssertBy::Equivalence(_, true))
    ));
    assert!(matches!(
        AssertBy::from_kind("f_parse", Vec::new(), false),
        Some(AssertBy::ParseError)
    ));
    assert!(matches!(
        AssertBy::from_kind("f_serialize", Vec::new(), false),
        Some(AssertBy::SerializationError)
    ));
    assert!(matches!(
        AssertBy::from_kind("json_validator", Vec::new(), false),
        Some(AssertBy::Validator)
    ));
    assert!(AssertBy::from_kind("something_else", Vec::new(), false).is_none());
}

#[test]
fn describe_renders_payload_in_base64() {
    let tc = TestCase {
        name: "n".to_string(),
        level: Level::Recommended,
        syntax: "proto3".to_string(),
        payload: vec![1u8, 2, 3],
        assertion: AssertBy::ParseError,
    };
    assert_eq!(tc.describe(), "syntax: proto3\nlevel: Recommended\npayload: AQID");
}

#[test]
fn old_case_describe_uses_its_level_string() {
    let c = conform::case::Case {
        name: "n".to_string(),
        level: "Required".to_string(),
        syntax: "proto2".to_string(),
        payload: Vec::new(),
        equivalent: Vec::new(),
        require_same_write_format: false,
    };
    assert_eq!(c.describe(), "syntax: proto2\nlevel: Required\npayload: ");
}
