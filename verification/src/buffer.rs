//! The accumulation buffer: the bytes received and not yet consumed. Frames
//! are taken off its front one at a time, and the consumed prefix is dropped.

use crate::frame::{parse_spec, Frame, ParseError, Parsed};
use crate::frame_type::UnknownFrameType;
use vstd::prelude::*;

verus! {

/// The growable byte buffer of the `bytes` crate.
#[verifier::external_type_specification]
#[verifier::external_body]
pub struct ExBytesMut(bytes::BytesMut);

/// The bytes that a `BytesMut` holds, in order: what it shows as a slice.
pub uninterp spec fn buffered(buf: bytes::BytesMut) -> Seq<u8>;

/// A new buffer is empty.
pub assume_specification[ bytes::BytesMut::new ]() -> (buf: bytes::BytesMut)
    ensures
        buffered(buf) == Seq::<u8>::empty(),
;

/// The slice is copied to the end of the buffer.
pub assume_specification[ bytes::BytesMut::extend_from_slice ](
    buf: &mut bytes::BytesMut,
    extend: &[u8],
)
    ensures
        buffered(*final(buf)) == buffered(*old(buf)) + extend@,
;

/// The buffer keeps its first `at` bytes and the rest is returned. The
/// function panics when `at` is above the capacity, which is never below the
/// length.
pub assume_specification[ bytes::BytesMut::split_off ](
    buf: &mut bytes::BytesMut,
    at: usize,
) -> (tail: bytes::BytesMut)
    requires
        at <= buffered(*old(buf)).len(),
    ensures
        buffered(*final(buf)) == buffered(*old(buf)).take(at as int),
        buffered(tail) == buffered(*old(buf)).skip(at as int),
;

/// `BytesMut::as_ref`: the bytes of the buffer as a slice.
#[verifier::external_body]
fn buffer_bytes(buf: &bytes::BytesMut) -> (bytes: &[u8])
    ensures
        bytes@ == buffered(*buf),
{
    buf.as_ref()
}

/// Bytes received from the transport and not yet consumed by the parser.
pub struct Accumulator {
    bytes: bytes::BytesMut,
}

impl View for Accumulator {
    type V = Seq<u8>;

    closed spec fn view(&self) -> Seq<u8> {
        buffered(self.bytes)
    }
}

impl Accumulator {
    /// An empty buffer.
    pub fn new() -> (acc: Accumulator)
        ensures
            acc@ == Seq::<u8>::empty(),
    {
        Accumulator { bytes: bytes::BytesMut::new() }
    }

    /// The number of bytes that wait in the buffer.
    pub fn len(&self) -> (n: usize)
        ensures
            n == self@.len(),
    {
        buffer_bytes(&self.bytes).len()
    }

    /// Appends a chunk that the transport delivered.
    pub fn extend(&mut self, chunk: &[u8])
        ensures
            final(self)@ == old(self)@ + chunk@,
    {
        self.bytes.extend_from_slice(chunk);
    }

    /// Takes one frame off the front of the buffer.
    ///
    /// While the frame at the front is incomplete or malformed the buffer is
    /// left as it is. A whole frame is returned with its own copy of the
    /// payload, and the bytes it took up are dropped from the buffer.
    pub fn next_frame(&mut self) -> (r: Result<Frame, ParseError>)
        ensures
            match parse_spec(old(self)@) {
                Parsed::Incomplete => r == Err::<Frame, ParseError>(ParseError::Incomplete)
                    && final(self)@ == old(self)@,
                Parsed::Malformed(code) => r == Err::<Frame, ParseError>(
                    ParseError::Malformed(UnknownFrameType(code)),
                ) && final(self)@ == old(self)@,
                Parsed::Complete { frame, consumed } => r matches Ok(f) && f@ == frame
                    && f.frame_type.wf() && final(self)@ == old(self)@.skip(consumed as int)
                    && final(self)@.len() < old(self)@.len(),
            },
    {
        let parsed = Frame::parse(buffer_bytes(&self.bytes));
        match parsed {
            Ok((consumed, frame)) => {
                let rest = self.bytes.split_off(consumed);
                self.bytes = rest;
                Ok(frame)
            },
            Err(e) => Err(e),
        }
    }
}

} // verus!
