use conform::frame::{decode_frame, frame_payload, parse_frame_len};

#[test]
fn frame_prefixes_little_endian_length() {
    let f = frame_payload(&vec![9u8, 8, 7]);
    assert_eq!(f, vec![3u8, 0, 0, 0, 9, 8, 7]);
}

#[test]
fn round_trip_returns_payload() {
    let payload = vec![1u8, 2, 3, 4, 5];
    let framed = frame_payload(&payload);
    assert_eq!(decode_frame(&framed), Some(payload));
}

#[test]
fn round_trip_of_empty_payload() {
    let framed = frame_payload(&Vec::new());
    assert_eq!(framed, vec![0u8, 0, 0, 0]);
    assert_eq!(decode_frame(&framed), Some(Vec::new()));
}

#[test]
fn short_header_is_no_frame() {
    assert_eq!(decode_frame(&vec![1u8, 0, 0]), None);
}

#[test]
fn overrunning_length_is_no_frame() {
    assert_eq!(decode_frame(&vec![5u8, 0, 0, 0, 1]), None);
}

#[test]
fn header_reads_little_endian() {
    assert_eq!(parse_frame_len(&vec![0x01u8, 0x02, 0x00, 0x00]), 0x0201);
}
