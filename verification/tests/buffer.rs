use hp::buffer::Accumulator;
use hp::flags::{BitFlags, DataFlags};
use hp::frame::{Frame, OpaquePayload, ParseError};
use hp::frame_type::{FrameType, UnknownFrameType};

fn data_frame(payload: &[u8]) -> Frame {
    let mut frame = Frame::new(FrameType::Data(BitFlags::from_flag(DataFlags::EndStream)), 1);
    frame.payload = OpaquePayload(payload.to_vec());
    frame
}

fn bytes_of(frame: &Frame) -> Vec<u8> {
    let mut out = Vec::new();
    frame.write(&mut out);
    out
}

#[test]
fn new_buffer_is_empty() {
    let mut buffer = Accumulator::new();
    assert_eq!(buffer.len(), 0);
    assert_eq!(buffer.next_frame(), Err(ParseError::Incomplete));
}

#[test]
fn extend_appends() {
    let mut buffer = Accumulator::new();
    buffer.extend(&[1, 2, 3]);
    assert_eq!(buffer.len(), 3);
    buffer.extend(&[]);
    assert_eq!(buffer.len(), 3);
    buffer.extend(&[4]);
    assert_eq!(buffer.len(), 4);
}

#[test]
fn incomplete_frame_stays_in_the_buffer() {
    let bytes = bytes_of(&data_frame(b"hello"));
    let mut buffer = Accumulator::new();
    buffer.extend(&bytes[..12]);
    assert_eq!(buffer.next_frame(), Err(ParseError::Incomplete));
    assert_eq!(buffer.len(), 12);
    buffer.extend(&bytes[12..]);
    assert_eq!(buffer.next_frame(), Ok(data_frame(b"hello")));
    assert_eq!(buffer.len(), 0);
}

#[test]
fn frames_come_out_in_order_and_their_bytes_are_dropped() {
    let mut buffer = Accumulator::new();
    buffer.extend(&bytes_of(&data_frame(b"first")));
    buffer.extend(&bytes_of(&Frame::new(FrameType::Ping, 0)));
    buffer.extend(&bytes_of(&data_frame(b"third"))[..10]);
    assert_eq!(buffer.len(), 14 + 9 + 10);
    assert_eq!(buffer.next_frame(), Ok(data_frame(b"first")));
    assert_eq!(buffer.len(), 9 + 10);
    assert_eq!(buffer.next_frame(), Ok(Frame::new(FrameType::Ping, 0)));
    assert_eq!(buffer.len(), 10);
    assert_eq!(buffer.next_frame(), Err(ParseError::Incomplete));
    assert_eq!(buffer.len(), 10);
}

#[test]
fn malformed_frame_stays_in_the_buffer() {
    let mut buffer = Accumulator::new();
    buffer.extend(&[0, 0, 0, 0x0C, 0, 0, 0, 0, 0, 0xAA]);
    assert_eq!(buffer.next_frame(), Err(ParseError::Malformed(UnknownFrameType(0x0C))));
    assert_eq!(buffer.len(), 10);
    assert_eq!(buffer.next_frame(), Err(ParseError::Malformed(UnknownFrameType(0x0C))));
}

#[test]
fn byte_by_byte_gives_one_frame_at_the_last_byte() {
    let bytes = bytes_of(&data_frame(b"ok"));
    let mut buffer = Accumulator::new();
    for (i, byte) in bytes.iter().enumerate() {
        buffer.extend(&[*byte]);
        if i + 1 < bytes.len() {
            assert_eq!(buffer.next_frame(), Err(ParseError::Incomplete));
        }
    }
    assert_eq!(buffer.next_frame(), Ok(data_frame(b"ok")));
    assert_eq!(buffer.next_frame(), Err(ParseError::Incomplete));
}
