use conform::json::{object_contains_key, object_get, parse_json, JsonValue};

fn parse_object(text: &str) -> Vec<(String, JsonValue)> {
    match parse_json(text) {
        Some(JsonValue::Object(entries)) => entries,
        _ => panic!("expected an object"),
    }
}

#[test]
fn parses_every_shape_into_the_model() {
    let entries = parse_object("{\"i\": 1, \"t\": \"x\", \"n\": null, \"f\": 1.5, \"b\": true, \"a\": [2]}");
    assert!(matches!(object_get(&entries, "i"), Some(JsonValue::IntNumber(1))));
    match object_get(&entries, "t") {
        Some(JsonValue::Text(t)) => assert_eq!(t, "x"),
        _ => panic!("expected text"),
    }
    assert!(matches!(object_get(&entries, "n"), Some(JsonValue::Null)));
    assert!(matches!(object_get(&entries, "f"), Some(JsonValue::OtherNumber)));
    assert!(matches!(object_get(&entries, "b"), Some(JsonValue::Bool(true))));
    match object_get(&entries, "a") {
        Some(JsonValue::Array(xs)) => {
            assert_eq!(xs.len(), 1);
            assert!(matches!(xs[0], JsonValue::IntNumber(2)));
        },
        _ => panic!("expected an array"),
    }
}

#[test]
fn invalid_text_does_not_parse() {
    assert!(parse_json("{oops").is_none());
    assert!(parse_json("").is_none());
}

#[test]
fn lookup_misses_absent_keys() {
    let entries = parse_object("{\"a\": 1}");
    assert!(object_contains_key(&entries, "a"));
    assert!(!object_contains_key(&entries, "b"));
    assert!(object_get(&entries, "b").is_none());
}

#[test]
fn huge_numbers_are_not_integers() {
    let entries = parse_object("{\"big\": 99999999999999999999999}");
    assert!(matches!(object_get(&entries, "big"), Some(JsonValue::OtherNumber)));
}
