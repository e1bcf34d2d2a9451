use conform::wire::{
    encode_field, encode_request, encode_response, encode_varint, parse_request_type,
    parse_response, Response,
};

fn round_trip(resp: Response) -> Response {
    let bytes = encode_response(&resp);
    match parse_response(&bytes) {
        Some(Some(r)) => r,
        other => panic!("expected a decoded response, got {:?}", other.is_some()),
    }
}

#[test]
fn varint_single_byte() {
    assert_eq!(encode_varint(0), vec![0u8]);
    assert_eq!(encode_varint(127), vec![127u8]);
}

#[test]
fn varint_multi_byte() {
    assert_eq!(encode_varint(300), vec![0xacu8, 0x02]);
}

#[test]
fn field_layout_is_tag_length_bytes() {
    let f = encode_field(5, &vec![0x61u8, 0x62]);
    assert_eq!(f, vec![0x2au8, 0x02, 0x61, 0x62]);
}

#[test]
fn skip_reason_round_trips() {
    match round_trip(Response::Skipped("reason".to_string())) {
        Response::Skipped(r) => assert_eq!(r, "reason"),
        _ => panic!("wrong variant"),
    }
}

#[test]
fn payload_bytes_round_trip() {
    match round_trip(Response::ProtobufPayload(vec![8u8, 1])) {
        Response::ProtobufPayload(b) => assert_eq!(b, vec![8u8, 1]),
        _ => panic!("wrong variant"),
    }
}

#[test]
fn parse_error_round_trips() {
    match round_trip(Response::ParseError("bad".to_string())) {
        Response::ParseError(r) => assert_eq!(r, "bad"),
        _ => panic!("wrong variant"),
    }
}

#[test]
fn empty_message_has_no_result() {
    assert!(matches!(parse_response(&Vec::new()), Some(None)));
}

#[test]
fn truncated_field_is_a_decode_error() {
    // field 1, declared length 5, one byte present
    assert!(parse_response(&vec![0x0au8, 0x05, 0x01]).is_none());
}

#[test]
fn group_wire_type_is_a_decode_error() {
    // field 1, wire type 3
    assert!(parse_response(&vec![0x0bu8]).is_none());
}

#[test]
fn invalid_utf8_in_text_field_is_a_decode_error() {
    // field 1 (parse error text), one byte that is not UTF-8
    assert!(parse_response(&vec![0x0au8, 0x01, 0xff]).is_none());
}

#[test]
fn last_result_field_wins() {
    let mut bytes = encode_response(&Response::ParseError("first".to_string()));
    bytes.extend_from_slice(&encode_response(&Response::Skipped("second".to_string())));
    match parse_response(&bytes) {
        Some(Some(Response::Skipped(r))) => assert_eq!(r, "second"),
        _ => panic!("expected the later field to win"),
    }
}

#[test]
fn unknown_fields_are_skipped() {
    // field 12 (varint), then a real skip reason
    let mut bytes = vec![12u8 << 3, 0x07];
    bytes.extend_from_slice(&encode_response(&Response::Skipped("s".to_string())));
    assert!(matches!(
        parse_response(&bytes),
        Some(Some(Response::Skipped(_)))
    ));
}

#[test]
fn request_type_is_read_back() {
    let req = encode_request("protobuf_test_messages.proto3.TestAllTypesProto3", 1, &vec![8u8, 1]);
    assert_eq!(
        parse_request_type(&req),
        Some("protobuf_test_messages.proto3.TestAllTypesProto3".to_string())
    );
}

#[test]
fn request_without_type_defaults_to_empty() {
    let req = encode_field(1, &vec![8u8, 1]);
    assert_eq!(parse_request_type(&req), Some(String::new()));
}

#[test]
fn describe_shows_error_text() {
    assert_eq!(
        Response::ParseError("boom".to_string()).describe(),
        "parse error: boom"
    );
    assert_eq!(
        Response::Skipped("why".to_string()).describe(),
        "skipped: why"
    );
}

#[test]
fn describe_redacts_payload_bodies() {
    assert_eq!(
        Response::ProtobufPayload(vec![1u8, 2, 3]).describe(),
        "protobuf payload: [redacted payload] 3 bytes"
    );
    assert_eq!(
        Response::JsonPayload("{}".to_string()).describe(),
        "json payload: [redacted payload] 2 bytes"
    );
}

#[test]
fn error_kind_predicates() {
    assert!(Response::ParseError(String::new()).is_err());
    assert!(Response::TimeoutError(String::new()).is_err());
    assert!(Response::ParseError(String::new()).is_parse_error());
    assert!(Response::SerializeError(String::new()).is_serialize_error());
    assert!(Response::Skipped(String::new()).is_skipped());
    assert!(!Response::Skipped(String::new()).is_err());
    assert!(!Response::ProtobufPayload(Vec::new()).is_err());
}
