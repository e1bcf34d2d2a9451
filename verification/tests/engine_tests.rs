use conform::engine::{
    case, classify, resolve_equivalence, CaseVerdict, Outcome, PayloadForm, Verdict,
};
use conform::test_case::{AssertBy, Level, TestCase};
use conform::wire::{encode_request, encode_response, Response};

const PROTO3: &str = "protobuf_test_messages.proto3.TestAllTypesProto3";

fn equivalence_case(expected: Vec<u8>) -> TestCase {
    TestCase {
        name: "Required.Proto3.ProtobufInput.SomeCase".to_string(),
        level: Level::Required,
        syntax: "proto3".to_string(),
        payload: encode_request(PROTO3, 1, &vec![8u8, 1]),
        assertion: AssertBy::Equivalence(expected, false),
    }
}

fn mode_case(assertion: AssertBy, name: &str) -> TestCase {
    TestCase {
        name: name.to_string(),
        level: Level::Required,
        syntax: "proto3".to_string(),
        payload: encode_request(PROTO3, 1, &vec![8u8, 1]),
        assertion,
    }
}

#[test]
fn equivalence_with_matching_payload_passes() {
    // the subject returns exactly the expected bytes
    let payload = vec![8u8, 1];
    let tc = equivalence_case(payload.clone());
    let res = encode_response(&Response::ProtobufPayload(payload.clone()));
    match classify(&tc, &res) {
        Verdict::NeedsRender(eq, so_far) => {
            assert_eq!(eq.message_type, PROTO3);
            match &eq.actual {
                PayloadForm::Wire(b) => assert_eq!(*b, payload),
                _ => panic!("expected a wire payload"),
            }
            assert_eq!(eq.expected, payload);
            // identical inputs render identically under any deterministic codec
            let text = "optional_int32: 1\n".to_string();
            let outcome = resolve_equivalence(so_far, Ok(text.clone()), Ok(text));
            assert!(outcome.passed());
        },
        _ => panic!("expected a pending equivalence comparison"),
    }
}

#[test]
fn equivalence_with_differing_renderings_fails() {
    let tc = equivalence_case(vec![8u8, 2]);
    let res = encode_response(&Response::ProtobufPayload(vec![8u8, 1]));
    match classify(&tc, &res) {
        Verdict::NeedsRender(_, so_far) => {
            let outcome = resolve_equivalence(
                so_far,
                Ok("optional_int32: 1".to_string()),
                Ok("optional_int32: 2".to_string()),
            );
            assert!(outcome.failed());
            assert_eq!(
                outcome.diagnostics,
                vec!["- optional_int32: 1\n+ optional_int32: 2\n".to_string()]
            );
        },
        _ => panic!("expected a pending equivalence comparison"),
    }
}

#[test]
fn equivalence_with_failed_decode_fails() {
    let tc = equivalence_case(vec![8u8, 1]);
    let res = encode_response(&Response::ProtobufPayload(vec![8u8, 1]));
    match classify(&tc, &res) {
        Verdict::NeedsRender(_, so_far) => {
            let outcome = resolve_equivalence(
                so_far,
                Err("bad payload".to_string()),
                Ok("x".to_string()),
            );
            assert!(outcome.failed());
            assert_eq!(
                outcome.diagnostics,
                vec!["failed to decode the response payload: bad payload".to_string()]
            );
        },
        _ => panic!("expected a pending equivalence comparison"),
    }
}

#[test]
fn skip_answer_skips_whatever_the_mode() {
    let tc = mode_case(AssertBy::ParseError, "AnyCase");
    let res = encode_response(&Response::Skipped("reason".to_string()));
    match classify(&tc, &res) {
        Verdict::Done(o) => {
            assert!(o.skipped());
            assert!(!o.failed());
            assert_eq!(o.diagnostics, vec!["skipped: reason".to_string()]);
        },
        _ => panic!("expected a finished outcome"),
    }
}

#[test]
fn expected_parse_error_passes_on_parse_error() {
    let tc = mode_case(AssertBy::ParseError, "AnyCase");
    let res = encode_response(&Response::ParseError("bad".to_string()));
    match classify(&tc, &res) {
        Verdict::Done(o) => assert!(o.passed()),
        _ => panic!("expected a finished outcome"),
    }
}

#[test]
fn expected_parse_error_fails_on_anything_else() {
    let tc = mode_case(AssertBy::ParseError, "AnyCase");
    let res = encode_response(&Response::ProtobufPayload(vec![8u8, 1]));
    match classify(&tc, &res) {
        Verdict::Done(o) => {
            assert!(o.failed());
            assert_eq!(
                o.diagnostics,
                vec!["should have failed to parse but didn't.".to_string()]
            );
        },
        _ => panic!("expected a finished outcome"),
    }
}

#[test]
fn expected_serialize_error_is_symmetric() {
    let tc = mode_case(AssertBy::SerializationError, "AnyCase");
    let ok = encode_response(&Response::SerializeError("cannot".to_string()));
    match classify(&tc, &ok) {
        Verdict::Done(o) => assert!(o.passed()),
        _ => panic!("expected a finished outcome"),
    }
    let wrong = encode_response(&Response::ParseError("bad".to_string()));
    match classify(&tc, &wrong) {
        Verdict::Done(o) => {
            assert!(o.failed());
            assert_eq!(
                o.diagnostics,
                vec!["should have failed to serialize but didn't.".to_string()]
            );
        },
        _ => panic!("expected a finished outcome"),
    }
}

#[test]
fn undecodable_answer_fails_the_case() {
    let tc = mode_case(AssertBy::ParseError, "AnyCase");
    let res = vec![0x0bu8];  // group wire type
    match classify(&tc, &res) {
        Verdict::Done(o) => {
            assert!(o.failed());
            assert_eq!(o.diagnostics, vec!["failed to parse response".to_string()]);
        },
        _ => panic!("expected a finished outcome"),
    }
}

#[test]
fn unset_result_fails_the_case() {
    let tc = mode_case(AssertBy::ParseError, "AnyCase");
    match classify(&tc, &Vec::new()) {
        Verdict::Done(o) => {
            assert!(o.failed());
            assert_eq!(o.diagnostics, vec!["response was not set.".to_string()]);
        },
        _ => panic!("expected a finished outcome"),
    }
}

#[test]
fn error_answer_fails_an_equivalence_case() {
    let tc = equivalence_case(vec![8u8, 1]);
    let res = encode_response(&Response::RuntimeError("crashed".to_string()));
    match classify(&tc, &res) {
        Verdict::Done(o) => {
            assert!(o.failed());
            assert_eq!(o.diagnostics, vec!["runtime error: crashed".to_string()]);
        },
        _ => panic!("expected a finished outcome"),
    }
}

#[test]
fn text_answer_is_an_explicit_failure() {
    let tc = equivalence_case(vec![8u8, 1]);
    let res = encode_response(&Response::TextPayload("optional_int32: 1".to_string()));
    match classify(&tc, &res) {
        Verdict::Done(o) => {
            assert!(o.failed());
            assert_eq!(o.diagnostics, vec!["text output is not supported.".to_string()]);
        },
        _ => panic!("expected a finished outcome"),
    }
}

#[test]
fn registered_validator_passes_on_satisfying_json() {
    let tc = mode_case(
        AssertBy::Validator,
        "Required.Proto3.JsonInput.FieldNameInLowerCamelCase.Validator",
    );
    let json = "{\"fieldname1\":1,\"fieldName2\":2,\"FieldName3\":3,\"fieldName4\":4}";
    let res = encode_response(&Response::JsonPayload(json.to_string()));
    match classify(&tc, &res) {
        Verdict::Done(o) => assert!(o.passed()),
        _ => panic!("expected a finished outcome"),
    }
}

#[test]
fn unregistered_validator_fails_with_the_placeholder_text() {
    let tc = mode_case(AssertBy::Validator, "Absent.From.The.Registry");
    let res = encode_response(&Response::JsonPayload("{}".to_string()));
    match classify(&tc, &res) {
        Verdict::Done(o) => {
            assert!(o.failed());
            assert_eq!(o.diagnostics, vec!["unimplemented validator".to_string()]);
        },
        _ => panic!("expected a finished outcome"),
    }
}

#[test]
fn empty_json_answer_fails_a_validator_case() {
    let tc = mode_case(
        AssertBy::Validator,
        "Required.Proto3.JsonInput.FieldNameInLowerCamelCase.Validator",
    );
    let res = encode_response(&Response::JsonPayload(String::new()));
    match classify(&tc, &res) {
        Verdict::Done(o) => {
            assert!(o.failed());
            assert_eq!(o.diagnostics, vec!["expected json payload".to_string()]);
        },
        _ => panic!("expected a finished outcome"),
    }
}

#[test]
fn malformed_json_answer_fails_a_validator_case() {
    let tc = mode_case(
        AssertBy::Validator,
        "Required.Proto3.JsonInput.FieldNameInLowerCamelCase.Validator",
    );
    let res = encode_response(&Response::JsonPayload("{not json".to_string()));
    match classify(&tc, &res) {
        Verdict::Done(o) => {
            assert!(o.failed());
            assert_eq!(
                o.diagnostics,
                vec!["failed to parse the response json".to_string()]
            );
        },
        _ => panic!("expected a finished outcome"),
    }
}

#[test]
fn equivalence_suite_case_skips_too() {
    let c = conform::case::Case {
        name: "old".to_string(),
        level: "Required".to_string(),
        syntax: "proto3".to_string(),
        payload: encode_request(PROTO3, 1, &vec![8u8, 1]),
        equivalent: vec![8u8, 1],
        require_same_write_format: false,
    };
    let res = encode_response(&Response::Skipped("later".to_string()));
    match case(&c, &res) {
        CaseVerdict::Done(r) => {
            assert!(r.passed);
            assert!(r.skipped);
        },
        _ => panic!("expected a finished result"),
    }
}

#[test]
fn outcome_text_joins_diagnostics() {
    let mut o = Outcome::new();
    o.add_diagnostic("one".to_string());
    o.add_diagnostic("two".to_string());
    assert_eq!(o.text(), "one\ntwo");
}

#[test]
fn case_levels_have_consistent_polarity() {
    let tc = mode_case(AssertBy::ParseError, "AnyCase");
    assert!(tc.is_required());
    assert!(!tc.is_recommended());
    let c = conform::case::Case {
        name: "old".to_string(),
        level: "Recommended".to_string(),
        syntax: "proto3".to_string(),
        payload: Vec::new(),
        equivalent: Vec::new(),
        require_same_write_format: false,
    };
    assert!(c.is_recommended());
    assert!(!c.is_required());
}
