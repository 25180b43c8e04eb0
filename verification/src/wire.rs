//! The fixed 9-byte frame header: a 24-bit payload length, the type byte,
//! the flags byte, and a 32-bit word that holds one reserved bit above the
//! 31-bit stream id. All integers are big-endian.

use byteorder::{BigEndian, ByteOrder};
use vstd::prelude::*;

verus! {

/// The length of a frame header in bytes.
pub const HEADER_LEN: usize = 9;

/// The largest payload length that a header can hold.
pub const MAX_PAYLOAD_LEN: u32 = 0xFF_FFFF;

/// The largest stream id.
pub const MAX_STREAM_ID: u32 = 0x7FFF_FFFF;

/// The fields of a frame header as they stand on the wire.
#[derive(Copy, Clone, Debug, PartialEq, Eq)]
pub struct RawHeader {
    /// Number of payload bytes that follow the header, below 2^24.
    pub length: u32,
    pub raw_type: u8,
    pub raw_flags: u8,
    /// The top bit of the stream-id word, 0 or 1. It is read and not checked.
    pub reserved: u8,
    /// The low 31 bits of the stream-id word.
    pub stream_id: u32,
}

/// Fewer than 9 bytes were at hand: the header cannot be read yet.
#[derive(Copy, Clone, Debug, PartialEq, Eq)]
pub struct NeedMoreBytes;

/// The three bytes of `n`, most significant first.
pub open spec fn be24_spec(n: u32) -> Seq<u8> {
    seq![(n / 0x1_0000) as u8, (n / 0x100 % 0x100) as u8, (n % 0x100) as u8]
}

/// The four bytes of `n`, most significant first.
pub open spec fn be32_spec(n: u32) -> Seq<u8> {
    seq![
        (n / 0x100_0000) as u8,
        (n / 0x1_0000 % 0x100) as u8,
        (n / 0x100 % 0x100) as u8,
        (n % 0x100) as u8,
    ]
}

/// The 9 bytes of a header with the given fields and the reserved bit 0.
pub open spec fn header_bytes_spec(length: u32, raw_type: u8, raw_flags: u8, stream_id: u32) -> Seq<
    u8,
> {
    be24_spec(length) + seq![raw_type, raw_flags] + be32_spec(stream_id)
}

/// The fields that the first 9 bytes of `bytes` hold.
pub open spec fn decode_header_spec(bytes: Seq<u8>) -> RawHeader
    recommends
        bytes.len() >= 9,
{
    RawHeader {
        length: (bytes[0] * 0x1_0000 + bytes[1] * 0x100 + bytes[2]) as u32,
        raw_type: bytes[3],
        raw_flags: bytes[4],
        reserved: bytes[5] / 0x80,
        stream_id: (bytes[5] % 0x80 * 0x100_0000 + bytes[6] * 0x1_0000 + bytes[7] * 0x100
            + bytes[8]) as u32,
    }
}

/// `byteorder::BigEndian::write_u24` on a buffer of three bytes: the three
/// bytes of `n`, most significant first. The function panics when `n` does not
/// fit in 24 bits, so such an `n` is not admitted.
#[verifier::external_body]
fn be_u24(n: u32) -> (out: [u8; 3])
    requires
        n <= MAX_PAYLOAD_LEN,
    ensures
        out@ == be24_spec(n),
{
    let mut out: [u8; 3] = [0; 3];
    BigEndian::write_u24(&mut out, n);
    out
}

/// `byteorder::BigEndian::write_u32` on a buffer of four bytes: the four
/// bytes of `n`, most significant first.
#[verifier::external_body]
fn be_u32(n: u32) -> (out: [u8; 4])
    ensures
        out@ == be32_spec(n),
{
    let mut out: [u8; 4] = [0; 4];
    BigEndian::write_u32(&mut out, n);
    out
}

/// The header of a frame with `payload_len` payload bytes: the length in 24
/// bits, the type byte, the flags byte, and the stream id in a 32-bit word
/// whose top bit is 0.
pub fn encode_header(payload_len: u32, frame_type_code: u8, flags: u8, stream_id: u32) -> (out: [u8;
    9])
    requires
        payload_len <= MAX_PAYLOAD_LEN,
        stream_id <= MAX_STREAM_ID,
    ensures
        out@ == header_bytes_spec(payload_len, frame_type_code, flags, stream_id),
        decode_header_spec(out@) == (RawHeader {
            length: payload_len,
            raw_type: frame_type_code,
            raw_flags: flags,
            reserved: 0,
            stream_id,
        }),
{
    let len = be_u24(payload_len);
    let sid = be_u32(stream_id);
    let out: [u8; 9] = [
        len[0],
        len[1],
        len[2],
        frame_type_code,
        flags,
        sid[0],
        sid[1],
        sid[2],
        sid[3],
    ];
    proof {
        assert(out@ =~= header_bytes_spec(payload_len, frame_type_code, flags, stream_id));
        lemma_header_round_trip(payload_len, frame_type_code, flags, stream_id);
    }
    out
}

/// Reads the header fields from the first 9 bytes of `bytes`. With fewer than
/// 9 bytes there is no header yet, whatever the bytes are.
pub fn decode_header(bytes: &[u8]) -> (r: Result<RawHeader, NeedMoreBytes>)
    ensures
        r is Err <==> bytes@.len() < 9,
        r matches Ok(h) ==> h == decode_header_spec(bytes@) && h.length <= MAX_PAYLOAD_LEN
            && h.reserved <= 1 && h.stream_id <= MAX_STREAM_ID,
{
    if bytes.len() < HEADER_LEN {
        return Err(NeedMoreBytes);
    }
    let length: u32 = (bytes[0] as u32) * 0x1_0000 + (bytes[1] as u32) * 0x100 + (bytes[2] as u32);
    let word_top: u8 = bytes[5];
    let stream_id: u32 = ((word_top % 0x80) as u32) * 0x100_0000 + (bytes[6] as u32) * 0x1_0000 + (
    bytes[7] as u32) * 0x100 + (bytes[8] as u32);
    Ok(
        RawHeader {
            length,
            raw_type: bytes[3],
            raw_flags: bytes[4],
            reserved: word_top / 0x80,
            stream_id,
        },
    )
}

/// The fields read from an encoded header are the fields that were encoded,
/// with the reserved bit 0.
pub proof fn lemma_header_round_trip(length: u32, raw_type: u8, raw_flags: u8, stream_id: u32)
    requires
        length <= MAX_PAYLOAD_LEN,
        stream_id <= MAX_STREAM_ID,
    ensures
        header_bytes_spec(length, raw_type, raw_flags, stream_id).len() == 9,
        decode_header_spec(header_bytes_spec(length, raw_type, raw_flags, stream_id)) == (RawHeader {
            length,
            raw_type,
            raw_flags,
            reserved: 0,
            stream_id,
        }),
{
    let bytes = header_bytes_spec(length, raw_type, raw_flags, stream_id);
    lemma_be24_digits(length);
    lemma_be32_digits(stream_id);
    assert(bytes =~= seq![
        (length / 0x1_0000) as u8,
        (length / 0x100 % 0x100) as u8,
        (length % 0x100) as u8,
        raw_type,
        raw_flags,
        (stream_id / 0x100_0000) as u8,
        (stream_id / 0x1_0000 % 0x100) as u8,
        (stream_id / 0x100 % 0x100) as u8,
        (stream_id % 0x100) as u8,
    ]);
}

/// The three base-256 digits of a number below 2^24 give the number back.
proof fn lemma_be24_digits(n: u32)
    requires
        n <= MAX_PAYLOAD_LEN,
    ensures
        n / 0x1_0000 < 0x100,
        (n / 0x1_0000) * 0x1_0000 + (n / 0x100 % 0x100) * 0x100 + n % 0x100 == n,
{
    assert(n <= 0xFF_FFFF ==> n / 0x1_0000 < 0x100) by (bit_vector);
    assert(n <= 0xFF_FFFF ==> (n / 0x1_0000) * 0x1_0000 + (n / 0x100 % 0x100) * 0x100 + n % 0x100
        == n) by (bit_vector);
}

/// The four base-256 digits of a number below 2^31 give the number back, and
/// the first digit is below 128.
proof fn lemma_be32_digits(n: u32)
    requires
        n <= MAX_STREAM_ID,
    ensures
        n / 0x100_0000 < 0x80,
        (n / 0x100_0000) * 0x100_0000 + (n / 0x1_0000 % 0x100) * 0x1_0000 + (n / 0x100 % 0x100)
            * 0x100 + n % 0x100 == n,
{
    assert(n <= 0x7FFF_FFFF ==> n / 0x100_0000 < 0x80) by (bit_vector);
    assert(n <= 0x7FFF_FFFF ==> (n / 0x100_0000) * 0x100_0000 + (n / 0x1_0000 % 0x100) * 0x1_0000
        + (n / 0x100 % 0x100) * 0x100 + n % 0x100 == n) by (bit_vector);
}

/// The number made of three base-256 digits has those digits.
proof fn lemma_digits_be24(b0: u8, b1: u8, b2: u8)
    ensures
        ({
            let n = (b0 * 0x1_0000 + b1 * 0x100 + b2) as u32;
            &&& n == b0 * 0x1_0000 + b1 * 0x100 + b2
            &&& n <= MAX_PAYLOAD_LEN
            &&& be24_spec(n) == seq![b0, b1, b2]
        }),
{
    let n = (b0 * 0x1_0000 + b1 * 0x100 + b2) as u32;
    let (w0, w1, w2) = (b0 as u32, b1 as u32, b2 as u32);
    assert(n == w0 * 0x1_0000 + w1 * 0x100 + w2);
    assert(w0 < 0x100 && w1 < 0x100 && w2 < 0x100 && n == w0 * 0x1_0000 + w1 * 0x100 + w2 ==> n
        / 0x1_0000 == w0 && n / 0x100 % 0x100 == w1 && n % 0x100 == w2) by (bit_vector);
    assert(be24_spec(n) =~= seq![b0, b1, b2]);
}

/// The number made of four base-256 digits, the first below 128, has those
/// digits.
proof fn lemma_digits_be32(b0: u8, b1: u8, b2: u8, b3: u8)
    requires
        b0 < 0x80,
    ensures
        ({
            let n = (b0 * 0x100_0000 + b1 * 0x1_0000 + b2 * 0x100 + b3) as u32;
            &&& n == b0 * 0x100_0000 + b1 * 0x1_0000 + b2 * 0x100 + b3
            &&& n <= MAX_STREAM_ID
            &&& be32_spec(n) == seq![b0, b1, b2, b3]
        }),
{
    let n = (b0 * 0x100_0000 + b1 * 0x1_0000 + b2 * 0x100 + b3) as u32;
    let (w0, w1, w2, w3) = (b0 as u32, b1 as u32, b2 as u32, b3 as u32);
    assert(n == w0 * 0x100_0000 + w1 * 0x1_0000 + w2 * 0x100 + w3);
    assert(w0 < 0x80 && w1 < 0x100 && w2 < 0x100 && w3 < 0x100 && n == w0 * 0x100_0000 + w1
        * 0x1_0000 + w2 * 0x100 + w3 ==> n / 0x100_0000 == w0 && n / 0x1_0000 % 0x100 == w1 && n
        / 0x100 % 0x100 == w2 && n % 0x100 == w3) by (bit_vector);
    assert(be32_spec(n) =~= seq![b0, b1, b2, b3]);
}

/// A header that was read with the reserved bit 0 encodes to the 9 bytes it
/// was read from. With the reserved bit 1 only that bit differs, since it is
/// always written as 0.
pub proof fn lemma_header_reencode(bytes: Seq<u8>)
    requires
        bytes.len() >= 9,
    ensures
        ({
            let h = decode_header_spec(bytes);
            let again = header_bytes_spec(h.length, h.raw_type, h.raw_flags, h.stream_id);
            &&& h.length <= MAX_PAYLOAD_LEN
            &&& h.stream_id <= MAX_STREAM_ID
            &&& h.reserved <= 1
            &&& again == bytes.take(9).update(5, (bytes[5] % 0x80) as u8)
            &&& h.reserved == 0 ==> again == bytes.take(9)
        }),
{
    let h = decode_header_spec(bytes);
    let top = (bytes[5] % 0x80) as u8;
    lemma_digits_be24(bytes[0], bytes[1], bytes[2]);
    lemma_digits_be32(top, bytes[6], bytes[7], bytes[8]);
    let again = header_bytes_spec(h.length, h.raw_type, h.raw_flags, h.stream_id);
    assert(again =~= bytes.take(9).update(5, top));
    if h.reserved == 0 {
        assert(bytes.take(9).update(5, top) =~= bytes.take(9));
    }
}

/// A header is read from the first 9 bytes alone: bytes that follow do not
/// change its fields.
pub proof fn lemma_header_of_prefix(bytes: Seq<u8>, more: Seq<u8>)
    requires
        bytes.len() >= 9,
    ensures
        decode_header_spec(bytes + more) == decode_header_spec(bytes),
{
}

} // verus!
