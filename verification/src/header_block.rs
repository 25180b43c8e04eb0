//! Header blocks: the HPACK collaborator that turns a header list into the
//! payload of a HEADERS frame and back, and the walk over a received block
//! that tells whether the decoder can be given it.

use vstd::prelude::*;

verus! {

/// A header list: (name, value) pairs of bytes, in order.
pub type HeaderList = Vec<(Vec<u8>, Vec<u8>)>;

/// A header list as a mathematical value.
pub type HeaderSeq = Seq<(Seq<u8>, Seq<u8>)>;

/// The decoder of the `hpack` crate. It keeps the dynamic table of one
/// connection between header blocks.
#[verifier::external_type_specification]
#[verifier::external_body]
pub struct ExDecoder<'a>(hpack::Decoder<'a>);

/// The error of the `hpack` crate's decoder.
#[verifier::external_type_specification]
#[verifier::external_body]
pub struct ExDecoderError(hpack::decoder::DecoderError);

/// The header block that a fresh `hpack::Encoder` makes of a header list.
pub uninterp spec fn hpack_encoded(headers: Seq<(Seq<u8>, Seq<u8>)>) -> Seq<u8>;

/// `hpack::Encoder::encode` on a new encoder: the header block of the list,
/// which depends on the names and values alone, in their order.
#[verifier::external_body]
pub(crate) fn encode_block(headers: &Vec<(Vec<u8>, Vec<u8>)>) -> (block: Vec<u8>)
    ensures
        block@ == hpack_encoded(headers.deep_view()),
{
    hpack::Encoder::new().encode(headers.iter().map(|h| (&h.0[..], &h.1[..])))
}

/// `hpack::Decoder::new`: a decoder with the static table and an empty
/// dynamic table.
#[verifier::external_body]
pub(crate) fn new_decoder() -> hpack::Decoder<'static> {
    hpack::Decoder::new()
}

/// `hpack::Decoder::decode` on a whole header block. What it returns depends
/// on the blocks that the decoder has seen before, so nothing is said of it.
/// The function panics where it comes to a table-size update whose integer
/// runs out of bytes or takes more than five, and nowhere else: blocks with
/// such a field are not admitted.
#[verifier::external_body]
pub(crate) fn decode_block(decoder: &mut hpack::Decoder<'static>, block: &[u8]) -> (r: Result<
    Vec<(Vec<u8>, Vec<u8>)>,
    hpack::decoder::DecoderError,
>)
    requires
        size_updates_end(block@),
{
    decoder.decode(block)
}

/// The bytes that follow the prefix of an HPACK integer: seven bits of the
/// value each, least significant first, the top bit set on all but the last.
/// `k` counts the bytes from the prefix on, and the integer may not take more
/// than five. Gives the value and the position behind the integer.
pub open spec fn int_tail(buf: Seq<u8>, at: int, k: int, value: int, weight: int) -> Option<
    (int, int),
>
    decreases 5 - k,
{
    if k < 1 || k >= 5 || at + k >= buf.len() {
        None
    } else {
        let b = buf[at + k] as int;
        let value = value + (b % 128) * weight;
        if b < 128 {
            Some((value, at + k + 1))
        } else if k == 4 {
            None
        } else {
            int_tail(buf, at, k + 1, value, weight * 128)
        }
    }
}

/// The HPACK integer that starts at `at`, whose first byte holds the value
/// modulo `modulus` (a power of two) if it is below `modulus - 1`. Gives the
/// value and the position behind the integer, or `None` where the bytes run
/// out or the integer is too long.
pub open spec fn prefix_int(buf: Seq<u8>, at: int, modulus: int) -> Option<(int, int)> {
    if at < 0 || at >= buf.len() {
        None
    } else {
        let first = buf[at] as int % modulus;
        if first < modulus - 1 {
            Some((first, at + 1))
        } else {
            int_tail(buf, at, 1, first, 1)
        }
    }
}

/// The position behind the HPACK string that starts at `at`: a length as an
/// integer with a 7-bit prefix, then that many bytes. `None` where the length
/// cannot be read or the bytes are not all there.
pub open spec fn string_end(buf: Seq<u8>, at: int) -> Option<int> {
    match prefix_int(buf, at, 128) {
        None => None,
        Some((len, start)) => if start + len > buf.len() {
            None
        } else {
            Some(start + len)
        },
    }
}

/// The position behind the literal header field that starts at `at`: an
/// index with a prefix of `modulus` values, a name string where the index is
/// 0, and a value string.
pub open spec fn literal_end(buf: Seq<u8>, at: int, modulus: int) -> Option<int> {
    match prefix_int(buf, at, modulus) {
        None => None,
        Some((index, behind_index)) => {
            let behind_name = if index == 0 {
                string_end(buf, behind_index)
            } else {
                Some(behind_index)
            };
            match behind_name {
                None => None,
                Some(p) => string_end(buf, p),
            }
        },
    }
}

/// Whether every table-size update among the fields from `at` on holds an
/// integer that ends within the block.
///
/// The fields are walked as the decoder walks them: a first byte of 128 or
/// more starts an indexed field, of 64 or more a literal with indexing, of 32
/// or more a table-size update, and any other a literal without indexing.
/// Where the extent of a field cannot be read the decoder stops with an
/// error, so the walk ends there.
pub open spec fn size_updates_end_from(buf: Seq<u8>, at: int) -> bool
    decreases buf.len() - at,
{
    if at < 0 || at >= buf.len() {
        true
    } else {
        let first = buf[at];
        let next = if first >= 128 {
            prefix_int_end(buf, at, 128)
        } else if first >= 64 {
            literal_end(buf, at, 64)
        } else if first >= 32 {
            prefix_int_end(buf, at, 32)
        } else {
            literal_end(buf, at, 16)
        };
        match next {
            None => !(32 <= first < 64),
            Some(p) => {
                proof {
                    lemma_field_advances(buf, at);
                }
                size_updates_end_from(buf, p)
            },
        }
    }
}

/// The position behind the integer at `at`, without its value.
pub open spec fn prefix_int_end(buf: Seq<u8>, at: int, modulus: int) -> Option<int> {
    match prefix_int(buf, at, modulus) {
        None => None,
        Some((_, p)) => Some(p),
    }
}

/// Whether the decoder can be given the block: every table-size update in it
/// holds an integer that ends.
pub open spec fn size_updates_end(block: Seq<u8>) -> bool {
    size_updates_end_from(block, 0)
}

/// The tail of an integer ends behind the byte it starts at, within the
/// block and within five bytes of the prefix, and only adds to the value.
pub proof fn lemma_int_tail_bounds(buf: Seq<u8>, at: int, k: int, value: int, weight: int)
    requires
        0 <= at,
        0 <= value,
        0 < weight,
    ensures
        int_tail(buf, at, k, value, weight) matches Some((v, p)) ==> at + k < p <= buf.len() && p
            <= at + 5 && value <= v,
    decreases 5 - k,
{
    if k < 1 || k >= 5 || at + k >= buf.len() {
    } else {
        let b = buf[at + k] as int;
        assert((b % 128) * weight >= 0) by (nonlinear_arith)
            requires
                b % 128 >= 0,
                weight > 0,
        ;
        if b >= 128 && k < 4 {
            lemma_int_tail_bounds(buf, at, k + 1, value + (b % 128) * weight, weight * 128);
        }
    }
}

/// A field ends behind its first byte and within the block.
pub proof fn lemma_field_advances(buf: Seq<u8>, at: int)
    requires
        0 <= at < buf.len(),
    ensures
        prefix_int(buf, at, 128) matches Some((v, p)) ==> at < p <= buf.len() && v >= 0,
        prefix_int(buf, at, 32) matches Some((v, p)) ==> at < p <= buf.len() && v >= 0,
        literal_end(buf, at, 64) matches Some(p) ==> at < p <= buf.len(),
        literal_end(buf, at, 16) matches Some(p) ==> at < p <= buf.len(),
{
    lemma_prefix_int_bounds(buf, at, 128);
    lemma_prefix_int_bounds(buf, at, 32);
    lemma_literal_bounds(buf, at, 64);
    lemma_literal_bounds(buf, at, 16);
}

/// An integer ends behind its first byte and within the block.
pub proof fn lemma_prefix_int_bounds(buf: Seq<u8>, at: int, modulus: int)
    requires
        0 < modulus,
    ensures
        prefix_int(buf, at, modulus) matches Some((v, p)) ==> 0 <= at < p <= buf.len() && v >= 0,
{
    if 0 <= at < buf.len() {
        lemma_int_tail_bounds(buf, at, 1, buf[at] as int % modulus, 1);
    }
}

/// A string ends behind its first byte and within the block.
pub proof fn lemma_string_bounds(buf: Seq<u8>, at: int)
    ensures
        string_end(buf, at) matches Some(p) ==> 0 <= at < p <= buf.len(),
{
    lemma_prefix_int_bounds(buf, at, 128);
}

/// A literal field ends behind its first byte and within the block.
pub proof fn lemma_literal_bounds(buf: Seq<u8>, at: int, modulus: int)
    requires
        0 < modulus,
    ensures
        literal_end(buf, at, modulus) matches Some(p) ==> 0 <= at < p <= buf.len(),
{
    lemma_prefix_int_bounds(buf, at, modulus);
    match prefix_int(buf, at, modulus) {
        None => {},
        Some((index, behind_index)) => {
            lemma_string_bounds(buf, behind_index);
            if index == 0 {
                match string_end(buf, behind_index) {
                    None => {},
                    Some(p) => lemma_string_bounds(buf, p),
                }
            }
        },
    }
}

/// Reads the HPACK integer at `at` with a prefix of `modulus` values.
fn read_prefix_int(block: &[u8], at: usize, modulus: u8) -> (r: Option<(u64, usize)>)
    requires
        modulus == 16 || modulus == 32 || modulus == 64 || modulus == 128,
    ensures
        match prefix_int(block@, at as int, modulus as int) {
            None => r is None,
            Some((v, p)) => {
                &&& 0 <= v <= u32::MAX
                &&& at < p <= block@.len() <= usize::MAX
                &&& r == Some((v as u64, p as usize))
            },
        },
{
    if at >= block.len() {
        return None;
    }
    let first: u64 = (block[at] % modulus) as u64;
    if first < (modulus - 1) as u64 {
        return Some((first, at + 1));
    }
    let mut k: usize = 1;
    let mut value: u64 = first;
    let mut weight: u64 = 1;
    loop
        invariant
            at < block@.len(),
            1 <= k <= 4,
            weight == (if k == 1 {
                1u64
            } else if k == 2 {
                0x80u64
            } else if k == 3 {
                0x4000u64
            } else {
                0x20_0000u64
            }),
            value < 128 * weight,
            prefix_int(block@, at as int, modulus as int) == int_tail(
                block@,
                at as int,
                k as int,
                value as int,
                weight as int,
            ),
        decreases 5 - k,
    {
        if block.len() - at <= k {
            return None;
        }
        let b: u8 = block[at + k];
        let low: u64 = (b % 128) as u64;
        assert(low * weight <= 127 * weight) by (nonlinear_arith)
            requires
                low <= 127,
                weight > 0,
        ;
        value = value + low * weight;
        if b < 128 {
            return Some((value, at + k + 1));
        }
        if k == 4 {
            return None;
        }
        k = k + 1;
        weight = weight * 128;
    }
}

/// Reads the position behind the string at `at`.
fn read_string_end(block: &[u8], at: usize) -> (r: Option<usize>)
    ensures
        match string_end(block@, at as int) {
            None => r is None,
            Some(p) => {
                &&& at < p <= block@.len() <= usize::MAX
                &&& r == Some(p as usize)
            },
        },
{
    match read_prefix_int(block, at, 128) {
        None => None,
        Some((len, start)) => {
            if len > (block.len() - start) as u64 {
                None
            } else {
                Some(start + len as usize)
            }
        },
    }
}

/// Reads the position behind the literal field at `at`.
fn read_literal_end(block: &[u8], at: usize, modulus: u8) -> (r: Option<usize>)
    requires
        modulus == 16 || modulus == 64,
    ensures
        match literal_end(block@, at as int, modulus as int) {
            None => r is None,
            Some(p) => {
                &&& at < p <= block@.len() <= usize::MAX
                &&& r == Some(p as usize)
            },
        },
{
    let (index, behind_index) = match read_prefix_int(block, at, modulus) {
        None => {
            return None;
        },
        Some(found) => found,
    };
    if index == 0 {
        match read_string_end(block, behind_index) {
            None => None,
            Some(behind_name) => read_string_end(block, behind_name),
        }
    } else {
        read_string_end(block, behind_index)
    }
}

/// Whether the HPACK decoder can be given `block`: whether every table-size
/// update among its fields holds an integer that ends within the block.
pub fn block_is_safe(block: &[u8]) -> (safe: bool)
    ensures
        safe == size_updates_end(block@),
{
    let mut at: usize = 0;
    while at < block.len()
        invariant
            at <= block@.len(),
            size_updates_end(block@) == size_updates_end_from(block@, at as int),
        decreases block@.len() - at,
    {
        let first: u8 = block[at];
        let next = if first >= 128 {
            match read_prefix_int(block, at, 128) {
                None => None,
                Some((_, p)) => Some(p),
            }
        } else if first >= 64 {
            read_literal_end(block, at, 64)
        } else if first >= 32 {
            match read_prefix_int(block, at, 32) {
                None => None,
                Some((_, p)) => Some(p),
            }
        } else {
            read_literal_end(block, at, 16)
        };
        match next {
            None => {
                return !(first >= 32 && first < 64);
            },
            Some(p) => {
                at = p;
            },
        }
    }
    true
}

} // verus!
