use hp::wire::{decode_header, encode_header, NeedMoreBytes, RawHeader, HEADER_LEN};

#[test]
fn header_layout_is_big_endian() {
    let header = encode_header(0x010203, 0x01, 0x05, 0x0A0B0C0D);
    assert_eq!(header, [0x01, 0x02, 0x03, 0x01, 0x05, 0x0A, 0x0B, 0x0C, 0x0D]);
}

#[test]
fn header_of_an_empty_settings_frame() {
    assert_eq!(encode_header(0, 4, 0, 0), [0, 0, 0, 4, 0, 0, 0, 0, 0]);
}

#[test]
fn header_holds_the_largest_length_and_stream_id() {
    let header = encode_header(0xFF_FFFF, 9, 0xFF, 0x7FFF_FFFF);
    assert_eq!(header, [0xFF, 0xFF, 0xFF, 9, 0xFF, 0x7F, 0xFF, 0xFF, 0xFF]);
}

#[test]
fn decode_header_reads_all_fields() {
    let bytes = [0x00, 0x01, 0x02, 0x06, 0x81, 0x80, 0x00, 0x00, 0x03];
    assert_eq!(
        decode_header(&bytes),
        Ok(RawHeader { length: 0x0102, raw_type: 6, raw_flags: 0x81, reserved: 1, stream_id: 3 })
    );
}

#[test]
fn decode_header_splits_the_reserved_bit_from_the_stream_id() {
    let bytes = [0, 0, 0, 0, 0, 0xFF, 0xFF, 0xFF, 0xFF];
    let header = decode_header(&bytes).unwrap();
    assert_eq!(header.reserved, 1);
    assert_eq!(header.stream_id, 0x7FFF_FFFF);
    let bytes = [0, 0, 0, 0, 0, 0x7F, 0xFF, 0xFF, 0xFF];
    let header = decode_header(&bytes).unwrap();
    assert_eq!(header.reserved, 0);
    assert_eq!(header.stream_id, 0x7FFF_FFFF);
}

#[test]
fn decode_header_needs_nine_bytes() {
    let bytes = [0xFFu8; 9];
    for len in 0..HEADER_LEN {
        assert_eq!(decode_header(&bytes[..len]), Err(NeedMoreBytes));
    }
    assert!(decode_header(&bytes).is_ok());
}

#[test]
fn decode_header_ignores_what_follows() {
    let mut bytes = vec![0x00, 0x00, 0x02, 0x00, 0x01, 0x00, 0x00, 0x00, 0x01];
    let alone = decode_header(&bytes);
    bytes.extend_from_slice(b"ok and more");
    assert_eq!(decode_header(&bytes), alone);
}

#[test]
fn header_round_trip() {
    let cases = [(0u32, 0u8, 0u8, 0u32), (1, 1, 0x05, 1), (0x12_3456, 8, 0x20, 0x1234_5678), (0xFF_FFFF, 9, 0xFF, 0x7FFF_FFFF)];
    for (length, raw_type, raw_flags, stream_id) in cases {
        let header = encode_header(length, raw_type, raw_flags, stream_id);
        assert_eq!(
            decode_header(&header),
            Ok(RawHeader { length, raw_type, raw_flags, reserved: 0, stream_id })
        );
    }
}
