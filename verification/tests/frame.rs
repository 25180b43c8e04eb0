use hp::flags::{BitFlags, DataFlags, HeadersFlags, SettingsFlags};
use hp::frame::{Frame, OpaquePayload, ParseError};
use hp::frame_type::{FrameType, UnknownFrameType};

fn data_frame(payload: &[u8]) -> Frame {
    let mut frame = Frame::new(FrameType::Data(BitFlags::from_flag(DataFlags::EndStream)), 1);
    frame.payload = OpaquePayload(payload.to_vec());
    frame
}

fn bytes_of(frame: &Frame) -> Vec<u8> {
    let mut out = Vec::new();
    frame.write(&mut out);
    out
}

fn sample_frames() -> Vec<Frame> {
    let mut frames = vec![
        Frame::new(FrameType::Settings(BitFlags::empty()), 0),
        Frame::new(FrameType::Settings(BitFlags::from_flag(SettingsFlags::Ack)), 0),
        data_frame(b"ok"),
        data_frame(&[0xAB; 300]),
        Frame::new(FrameType::Ping, 0x7FFF_FFFF),
    ];
    let mut headers = Frame::new(
        FrameType::Headers(BitFlags::from_flag(HeadersFlags::EndHeaders).with(HeadersFlags::EndStream)),
        1,
    );
    headers.payload = OpaquePayload(vec![0x82, 0x84]);
    frames.push(headers);
    for frame_type in [
        FrameType::Priority,
        FrameType::RstStream,
        FrameType::PushPromise,
        FrameType::GoAway,
        FrameType::WindowUpdate,
        FrameType::Continuation,
    ] {
        let mut frame = Frame::new(frame_type, 3);
        frame.payload = OpaquePayload(vec![1, 2, 3, 4]);
        frames.push(frame);
    }
    frames
}

#[test]
fn new_frame_is_empty_with_reserved_bit_clear() {
    let frame = Frame::new(FrameType::Ping, 7);
    assert_eq!(frame.frame_type, FrameType::Ping);
    assert_eq!(frame.reserved, 0);
    assert_eq!(frame.stream_id, 7);
    assert_eq!(frame.payload, OpaquePayload(Vec::new()));
    assert_eq!(frame.payload.len(), 0);
    assert_eq!(OpaquePayload::default(), OpaquePayload(Vec::new()));
}

#[test]
fn write_puts_header_before_payload() {
    assert_eq!(
        bytes_of(&data_frame(b"ok")),
        vec![0x00, 0x00, 0x02, 0x00, 0x01, 0x00, 0x00, 0x00, 0x01, b'o', b'k']
    );
}

#[test]
fn write_appends_to_the_sink() {
    let mut sink = vec![0xEE];
    Frame::new(FrameType::Settings(BitFlags::empty()), 0).write(&mut sink);
    assert_eq!(sink, vec![0xEE, 0, 0, 0, 4, 0, 0, 0, 0, 0]);
}

#[test]
fn header_is_the_first_nine_bytes_of_the_frame() {
    for frame in sample_frames() {
        let bytes = bytes_of(&frame);
        assert_eq!(&frame.header()[..], &bytes[..9]);
        assert_eq!(frame.payload.as_slice(), &bytes[9..]);
    }
}

#[test]
fn parse_of_write_is_the_frame() {
    for frame in sample_frames() {
        let bytes = bytes_of(&frame);
        let (consumed, parsed) = Frame::parse(&bytes).unwrap();
        assert_eq!(consumed, bytes.len());
        assert_eq!(parsed, frame);
    }
}

#[test]
fn parse_leaves_what_follows_the_frame() {
    let mut bytes = bytes_of(&data_frame(b"ok"));
    bytes.extend_from_slice(&bytes_of(&Frame::new(FrameType::Ping, 0)));
    let (consumed, parsed) = Frame::parse(&bytes).unwrap();
    assert_eq!(consumed, 11);
    assert_eq!(parsed, data_frame(b"ok"));
    let (consumed, parsed) = Frame::parse(&bytes[11..]).unwrap();
    assert_eq!(consumed, 9);
    assert_eq!(parsed, Frame::new(FrameType::Ping, 0));
}

#[test]
fn every_proper_prefix_is_incomplete() {
    for frame in sample_frames() {
        let bytes = bytes_of(&frame);
        let mut fed = Vec::new();
        let mut incompletes = 0;
        let mut frames = Vec::new();
        for byte in &bytes {
            match Frame::parse(&fed) {
                Err(ParseError::Incomplete) => incompletes += 1,
                other => panic!("before the last byte: {:?}", other),
            }
            fed.push(*byte);
        }
        match Frame::parse(&fed) {
            Ok((consumed, parsed)) => {
                assert_eq!(consumed, bytes.len());
                frames.push(parsed);
            }
            Err(e) => panic!("with all bytes: {:?}", e),
        }
        assert_eq!(incompletes, bytes.len());
        assert_eq!(frames, vec![Frame::parse(&bytes).unwrap().1]);
    }
}

#[test]
fn empty_input_is_incomplete() {
    assert_eq!(Frame::parse(&[]), Err(ParseError::Incomplete));
}

#[test]
fn unknown_type_is_malformed() {
    let bytes = [0x00, 0x00, 0x00, 0x0A, 0x00, 0x00, 0x00, 0x00, 0x00];
    assert_eq!(Frame::parse(&bytes), Err(ParseError::Malformed(UnknownFrameType(0x0A))));
    for code in 10..=255u8 {
        let bytes = [0x00, 0x00, 0x02, code, 0xFF, 0x00, 0x00, 0x00, 0x01, b'o', b'k'];
        assert_eq!(Frame::parse(&bytes), Err(ParseError::Malformed(UnknownFrameType(code))));
    }
}

#[test]
fn unknown_type_is_malformed_before_the_payload_has_come() {
    let bytes = [0x00, 0x00, 0x05, 0x0B, 0x00, 0x00, 0x00, 0x00, 0x01];
    assert_eq!(Frame::parse(&bytes), Err(ParseError::Malformed(UnknownFrameType(0x0B))));
}

#[test]
fn unknown_type_in_a_partial_header_is_incomplete() {
    let bytes = [0x00, 0x00, 0x00, 0x0A, 0x00, 0x00, 0x00, 0x00];
    for len in 0..=bytes.len() {
        assert_eq!(Frame::parse(&bytes[..len]), Err(ParseError::Incomplete));
    }
}

#[test]
fn missing_payload_is_incomplete() {
    let bytes = [0x00, 0x00, 0x03, 0x00, 0x01, 0x00, 0x00, 0x00, 0x01, 1, 2];
    assert_eq!(Frame::parse(&bytes), Err(ParseError::Incomplete));
    assert_eq!(Frame::parse(&bytes[..9]), Err(ParseError::Incomplete));
}

#[test]
fn is_incomplete_tells_the_two_errors_apart() {
    assert!(ParseError::Incomplete.is_incomplete());
    assert!(!ParseError::Malformed(UnknownFrameType(0x0A)).is_incomplete());
}

#[test]
fn reserved_bit_is_read_and_not_checked() {
    let bytes = [0x00, 0x00, 0x00, 0x06, 0x00, 0x80, 0x00, 0x00, 0x05];
    let (consumed, frame) = Frame::parse(&bytes).unwrap();
    assert_eq!(consumed, 9);
    assert_eq!(frame.reserved, 1);
    assert_eq!(frame.stream_id, 5);
    assert_eq!(frame.frame_type, FrameType::Ping);
}

#[test]
fn writer_clears_the_reserved_bit() {
    let bytes = [0x00, 0x00, 0x00, 0x06, 0x00, 0x80, 0x00, 0x00, 0x05];
    let (_, frame) = Frame::parse(&bytes).unwrap();
    assert_eq!(bytes_of(&frame), vec![0x00, 0x00, 0x00, 0x06, 0x00, 0x00, 0x00, 0x00, 0x05]);
}

#[test]
fn unknown_flag_bits_are_lost() {
    let bytes = [0x00, 0x00, 0x00, 0x04, 0xFF, 0x00, 0x00, 0x00, 0x00];
    let (_, frame) = Frame::parse(&bytes).unwrap();
    assert_eq!(frame.frame_type, FrameType::Settings(BitFlags::from_flag(SettingsFlags::Ack)));
    assert_eq!(bytes_of(&frame), vec![0x00, 0x00, 0x00, 0x04, 0x01, 0x00, 0x00, 0x00, 0x00]);
}

#[test]
fn flags_of_a_ping_are_dropped_and_written_as_zero() {
    let bytes = [0x00, 0x00, 0x00, 0x06, 0x01, 0x00, 0x00, 0x00, 0x00];
    let (_, frame) = Frame::parse(&bytes).unwrap();
    assert_eq!(frame.frame_type, FrameType::Ping);
    assert_eq!(bytes_of(&frame)[4], 0);
}

#[test]
fn payload_is_a_copy() {
    let mut bytes = bytes_of(&data_frame(b"ok"));
    let (_, frame) = Frame::parse(&bytes).unwrap();
    bytes.clear();
    assert_eq!(frame.payload.0, b"ok".to_vec());
}

#[test]
fn large_payload_round_trip() {
    let frame = data_frame(&vec![0x5A; 70_000]);
    let bytes = bytes_of(&frame);
    assert_eq!(&bytes[..3], &[0x01, 0x11, 0x70]);
    let (consumed, parsed) = Frame::parse(&bytes).unwrap();
    assert_eq!(consumed, 70_009);
    assert_eq!(parsed, frame);
    assert_eq!(Frame::parse(&bytes[..70_008]), Err(ParseError::Incomplete));
}

#[test]
fn write_of_parse_gives_the_bytes_back() {
    let inputs: Vec<Vec<u8>> = vec![
        vec![0x00, 0x00, 0x02, 0x00, 0x09, 0x00, 0x00, 0x00, 0x01, b'o', b'k'],
        vec![0x00, 0x00, 0x00, 0x04, 0x01, 0x00, 0x00, 0x00, 0x00],
        vec![0x00, 0x00, 0x01, 0x01, 0x2D, 0x7F, 0xFF, 0xFF, 0xFF, 0x88],
        vec![0x00, 0x00, 0x03, 0x08, 0x00, 0x00, 0x00, 0x00, 0x07, 1, 2, 3],
    ];
    for bytes in inputs {
        let (consumed, frame) = Frame::parse(&bytes).unwrap();
        assert_eq!(consumed, bytes.len());
        assert_eq!(bytes_of(&frame), bytes);
    }
}
