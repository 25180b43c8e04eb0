//! Frames: the streaming parser that takes one frame off the front of a
//! byte buffer, and the writer that turns a frame back into bytes.

use crate::frame_type::{FrameType, UnknownFrameType};
use crate::wire::{
    decode_header, decode_header_spec, encode_header, header_bytes_spec, lemma_header_of_prefix,
    lemma_header_reencode, lemma_header_round_trip, HEADER_LEN, MAX_PAYLOAD_LEN, MAX_STREAM_ID,
};
use vstd::prelude::*;
use vstd::slice::{slice_subrange, slice_to_vec};

verus! {

/// The payload bytes of a frame. The frame codec does not look inside.
#[derive(Debug, PartialEq, Eq)]
pub struct OpaquePayload(pub Vec<u8>);

impl Clone for OpaquePayload {
    fn clone(&self) -> (p: Self)
        ensures
            p@ == self@,
    {
        let bytes = self.0.clone();
        assert(bytes@ =~= self.0@);
        OpaquePayload(bytes)
    }
}

impl View for OpaquePayload {
    type V = Seq<u8>;

    open spec fn view(&self) -> Seq<u8> {
        self.0@
    }
}

impl Default for OpaquePayload {
    fn default() -> (p: Self)
        ensures
            p@ == Seq::<u8>::empty(),
    {
        OpaquePayload(Vec::new())
    }
}

impl OpaquePayload {
    /// The number of payload bytes.
    pub fn len(&self) -> (n: usize)
        ensures
            n == self@.len(),
    {
        self.0.len()
    }

    /// The payload bytes.
    pub fn as_slice(&self) -> (s: &[u8])
        ensures
            s@ == self@,
    {
        self.0.as_slice()
    }
}

/// One HTTP/2 frame.
#[derive(Debug, PartialEq, Eq)]
pub struct Frame {
    pub frame_type: FrameType,
    /// The reserved bit next to the stream id, as it was read. Frames made
    /// with [`Frame::new`] have 0, and the writer always writes 0.
    pub reserved: u8,
    pub stream_id: u32,
    pub payload: OpaquePayload,
}

impl Clone for Frame {
    fn clone(&self) -> (frame: Self)
        ensures
            frame@ == self@,
    {
        Frame {
            frame_type: self.frame_type,
            reserved: self.reserved,
            stream_id: self.stream_id,
            payload: self.payload.clone(),
        }
    }
}

/// A frame as a mathematical value.
pub struct FrameView {
    pub frame_type: FrameType,
    pub reserved: u8,
    pub stream_id: u32,
    pub payload: Seq<u8>,
}

impl View for Frame {
    type V = FrameView;

    open spec fn view(&self) -> FrameView {
        FrameView {
            frame_type: self.frame_type,
            reserved: self.reserved,
            stream_id: self.stream_id,
            payload: self.payload@,
        }
    }
}

impl FrameView {
    /// The frame can be written and read back: the payload length fits in
    /// 24 bits, the stream id in 31, the reserved bit is 0 and the flag set
    /// holds flags of the frame type only.
    pub open spec fn valid(self) -> bool {
        &&& self.payload.len() <= MAX_PAYLOAD_LEN
        &&& self.stream_id <= MAX_STREAM_ID
        &&& self.reserved == 0
        &&& self.frame_type.wf()
    }
}

/// Why no frame was taken off the buffer.
#[derive(Copy, Clone, Debug, PartialEq, Eq)]
pub enum ParseError {
    /// The header or the payload is not all there yet. More bytes may
    /// complete the frame.
    Incomplete,
    /// The header's type byte names no frame type. No later byte can mend
    /// this.
    Malformed(UnknownFrameType),
}

impl ParseError {
    /// Whether reading more bytes may help.
    pub fn is_incomplete(&self) -> (r: bool)
        ensures
            r == (*self == ParseError::Incomplete),
    {
        match self {
            ParseError::Incomplete => true,
            ParseError::Malformed(_) => false,
        }
    }
}

/// What the front of a byte buffer holds.
pub enum Parsed {
    /// Not yet a whole frame.
    Incomplete,
    /// A header whose type byte is unknown.
    Malformed(u8),
    /// A whole frame, which takes up the first `consumed` bytes.
    Complete { frame: FrameView, consumed: nat },
}

/// The one frame at the front of `bytes`, if it is all there.
///
/// With fewer than 9 bytes nothing is decided. From 9 bytes on the type byte
/// decides first, then the length: an unknown type is malformed whether or
/// not the payload has come.
pub open spec fn parse_spec(bytes: Seq<u8>) -> Parsed {
    if bytes.len() < 9 {
        Parsed::Incomplete
    } else {
        let h = decode_header_spec(bytes);
        match FrameType::decode_spec(h.raw_type, h.raw_flags) {
            Err(e) => Parsed::Malformed(e.0),
            Ok(frame_type) => if bytes.len() < 9 + h.length {
                Parsed::Incomplete
            } else {
                Parsed::Complete {
                    frame: FrameView {
                        frame_type,
                        reserved: h.reserved,
                        stream_id: h.stream_id,
                        payload: bytes.subrange(9, 9 + h.length),
                    },
                    consumed: (9 + h.length) as nat,
                }
            },
        }
    }
}

/// The bytes of a frame: its header, with the reserved bit 0, then its
/// payload.
pub open spec fn serialize_spec(frame: FrameView) -> Seq<u8> {
    header_bytes_spec(
        frame.payload.len() as u32,
        frame.frame_type.encode_spec().0,
        frame.frame_type.encode_spec().1,
        frame.stream_id,
    ) + frame.payload
}

impl Frame {
    /// A frame of the given type on the given stream, with the reserved bit
    /// 0 and an empty payload.
    pub fn new(frame_type: FrameType, stream_id: u32) -> (frame: Frame)
        ensures
            frame@ == (FrameView { frame_type, reserved: 0, stream_id, payload: Seq::empty() }),
    {
        Frame { frame_type, reserved: 0, stream_id, payload: OpaquePayload(Vec::new()) }
    }

    /// Takes one frame off the front of `i`.
    ///
    /// Returns the number of bytes that the frame takes up, and the frame with
    /// a copy of its payload. Nothing is consumed unless the whole frame is
    /// there: `Incomplete` says that more bytes are needed, `Malformed` that
    /// the type byte is unknown.
    pub fn parse(i: &[u8]) -> (r: Result<(usize, Frame), ParseError>)
        ensures
            match parse_spec(i@) {
                Parsed::Incomplete => r == Err::<(usize, Frame), ParseError>(ParseError::Incomplete),
                Parsed::Malformed(code) => r == Err::<(usize, Frame), ParseError>(
                    ParseError::Malformed(UnknownFrameType(code)),
                ),
                Parsed::Complete { frame, consumed } => r matches Ok((n, f)) && n == consumed
                    && f@ == frame,
            },
            r matches Ok((n, f)) ==> 9 <= n <= i@.len() && n == 9 + f@.payload.len()
                && f.frame_type.wf(),
            r matches Err(ParseError::Malformed(e)) ==> i@.len() >= 9 && e.0 == i@[3] && e.0 >= 10,
    {
        let header = match decode_header(i) {
            Ok(h) => h,
            Err(_) => {
                return Err(ParseError::Incomplete);
            },
        };
        let frame_type = match FrameType::decode(header.raw_type, header.raw_flags) {
            Ok(t) => t,
            Err(e) => {
                return Err(ParseError::Malformed(e));
            },
        };
        let length: usize = header.length as usize;
        if i.len() - HEADER_LEN < length {
            return Err(ParseError::Incomplete);
        }
        let end: usize = HEADER_LEN + length;
        let payload = slice_to_vec(slice_subrange(i, HEADER_LEN, end));
        Ok(
            (
                end,
                Frame {
                    frame_type,
                    reserved: header.reserved,
                    stream_id: header.stream_id,
                    payload: OpaquePayload(payload),
                },
            ),
        )
    }

    /// Appends the frame to `w`: the 9-byte header, then the payload.
    ///
    /// The header holds the payload's length, the encoding of the frame type,
    /// and the stream id under a reserved bit of 0.
    pub fn write(&self, w: &mut Vec<u8>)
        requires
            self@.payload.len() <= MAX_PAYLOAD_LEN,
            self.stream_id <= MAX_STREAM_ID,
        ensures
            final(w)@ == old(w)@ + serialize_spec(self@),
    {
        let header = self.header();
        w.extend_from_slice(header.as_slice());
        w.extend_from_slice(self.payload.as_slice());
        proof {
            assert(final(w)@ =~= old(w)@ + serialize_spec(self@));
        }
    }

    /// The 9-byte header that goes before the payload.
    pub fn header(&self) -> (out: [u8; 9])
        requires
            self@.payload.len() <= MAX_PAYLOAD_LEN,
            self.stream_id <= MAX_STREAM_ID,
        ensures
            out@ == header_bytes_spec(
                self@.payload.len() as u32,
                self.frame_type.encode_spec().0,
                self.frame_type.encode_spec().1,
                self.stream_id,
            ),
            out@ + self@.payload == serialize_spec(self@),
    {
        let (code, flags) = self.frame_type.encode();
        let len: u32 = self.payload.len() as u32;
        encode_header(len, code, flags, self.stream_id)
    }
}


/// Round trip: the bytes of a valid frame parse back to that frame, and the
/// parser takes up all of them and no more, whatever follows.
pub proof fn lemma_parse_serialized(frame: FrameView, rest: Seq<u8>)
    requires
        frame.valid(),
    ensures
        serialize_spec(frame).len() == 9 + frame.payload.len(),
        parse_spec(serialize_spec(frame) + rest) == (Parsed::Complete {
            frame,
            consumed: (9 + frame.payload.len()) as nat,
        }),
        parse_spec(serialize_spec(frame)) == (Parsed::Complete {
            frame,
            consumed: (9 + frame.payload.len()) as nat,
        }),
{
    let len = frame.payload.len() as u32;
    let (code, flags) = frame.frame_type.encode_spec();
    let header = header_bytes_spec(len, code, flags, frame.stream_id);
    lemma_header_round_trip(len, code, flags, frame.stream_id);
    frame.frame_type.lemma_encode_decode();
    let bytes = serialize_spec(frame);
    assert(bytes =~= header + (frame.payload + Seq::empty()));
    lemma_header_of_prefix(header, frame.payload);
    lemma_header_of_prefix(header, frame.payload + rest);
    assert(bytes + rest =~= header + (frame.payload + rest));
    assert((bytes + rest).subrange(9, 9 + len) =~= frame.payload);
    assert(bytes.subrange(9, 9 + len) =~= frame.payload);
    assert(bytes =~= header + frame.payload);
}

/// Streaming: every proper prefix of the bytes of a valid frame is
/// incomplete. Fed byte by byte, the parser asks for more until the last
/// byte has come, and never reports an error or a frame before that.
pub proof fn lemma_proper_prefix_incomplete(frame: FrameView, k: int)
    requires
        frame.valid(),
        0 <= k < serialize_spec(frame).len(),
    ensures
        parse_spec(serialize_spec(frame).take(k)) == Parsed::Incomplete,
{
    let len = frame.payload.len() as u32;
    let (code, flags) = frame.frame_type.encode_spec();
    let header = header_bytes_spec(len, code, flags, frame.stream_id);
    lemma_header_round_trip(len, code, flags, frame.stream_id);
    frame.frame_type.lemma_encode_decode();
    let bytes = serialize_spec(frame);
    if k >= 9 {
        let prefix = bytes.take(k);
        assert(prefix =~= header + frame.payload.take(k - 9));
        lemma_header_of_prefix(header, frame.payload.take(k - 9));
    }
}

/// Once a whole frame is at the front of the buffer, bytes that come later
/// change neither the frame nor the number of bytes it takes up.
pub proof fn lemma_complete_is_stable(bytes: Seq<u8>, more: Seq<u8>)
    requires
        parse_spec(bytes) is Complete,
    ensures
        parse_spec(bytes + more) == parse_spec(bytes),
{
    lemma_header_of_prefix(bytes, more);
    let h = decode_header_spec(bytes);
    assert((bytes + more).subrange(9, 9 + h.length) =~= bytes.subrange(9, 9 + h.length));
}

/// A malformed header stays malformed whatever bytes follow it.
pub proof fn lemma_malformed_is_stable(bytes: Seq<u8>, more: Seq<u8>)
    requires
        parse_spec(bytes) is Malformed,
    ensures
        parse_spec(bytes + more) == parse_spec(bytes),
{
    lemma_header_of_prefix(bytes, more);
}

/// From the ninth byte on, a type byte of 10 or more makes the input
/// malformed, whatever the other bytes are; below 10 it never does.
pub proof fn lemma_unknown_type_is_malformed(bytes: Seq<u8>)
    requires
        bytes.len() >= 9,
    ensures
        bytes[3] >= 10 ==> parse_spec(bytes) == Parsed::Malformed(bytes[3]),
        bytes[3] < 10 ==> !(parse_spec(bytes) is Malformed),
{
    let h = decode_header_spec(bytes);
    FrameType::lemma_decode_encode(h.raw_type, h.raw_flags);
}

/// A whole frame takes up its header and its payload, the payload is the
/// bytes behind the header, and the frame is valid but for the reserved bit,
/// which is kept as read.
pub proof fn lemma_complete_shape(bytes: Seq<u8>)
    requires
        parse_spec(bytes) is Complete,
    ensures
        ({
            let frame = parse_spec(bytes)->frame;
            let consumed = parse_spec(bytes)->consumed;
            &&& 9 <= consumed <= bytes.len()
            &&& consumed == 9 + frame.payload.len()
            &&& frame.payload == bytes.subrange(9, consumed as int)
            &&& frame.payload.len() <= MAX_PAYLOAD_LEN
            &&& frame.stream_id <= MAX_STREAM_ID
            &&& frame.reserved <= 1
            &&& frame.frame_type.wf()
        }),
{
    let h = decode_header_spec(bytes);
    FrameType::lemma_decode_encode(h.raw_type, h.raw_flags);
}

/// What is lost in parsing: a frame that was parsed from bytes writes back to
/// the bytes it took up, provided that the reserved bit was 0 and the flags
/// byte had no bit that the frame type does not know.
pub proof fn lemma_serialize_parsed(bytes: Seq<u8>)
    requires
        parse_spec(bytes) is Complete,
        decode_header_spec(bytes).reserved == 0,
        parse_spec(bytes)->frame.frame_type.flag_bits() == decode_header_spec(bytes).raw_flags,
    ensures
        serialize_spec(parse_spec(bytes)->frame) == bytes.take(parse_spec(bytes)->consumed as int),
{
    let h = decode_header_spec(bytes);
    let frame = parse_spec(bytes)->frame;
    let consumed = parse_spec(bytes)->consumed as int;
    FrameType::lemma_decode_encode(h.raw_type, h.raw_flags);
    lemma_header_reencode(bytes);
    lemma_complete_shape(bytes);
    assert(serialize_spec(frame) =~= bytes.take(9) + bytes.subrange(9, consumed));
    assert(bytes.take(9) + bytes.subrange(9, consumed) =~= bytes.take(consumed));
}

} // verus!
