//! The header list of a request: the four pseudo-headers of a GET over
//! https, before any other header.

use crate::header_block::{HeaderList, HeaderSeq};
use vstd::prelude::*;
use vstd::slice::slice_to_vec;

verus! {

/// `:method`
pub const METHOD: [u8; 7] = [0x3A, 0x6D, 0x65, 0x74, 0x68, 0x6F, 0x64];

/// `GET`
pub const GET: [u8; 3] = [0x47, 0x45, 0x54];

/// `:path`
pub const PATH: [u8; 5] = [0x3A, 0x70, 0x61, 0x74, 0x68];

/// `:scheme`
pub const SCHEME: [u8; 7] = [0x3A, 0x73, 0x63, 0x68, 0x65, 0x6D, 0x65];

/// `https`
pub const HTTPS: [u8; 5] = [0x68, 0x74, 0x74, 0x70, 0x73];

/// `:authority`
pub const AUTHORITY: [u8; 10] = [0x3A, 0x61, 0x75, 0x74, 0x68, 0x6F, 0x72, 0x69, 0x74, 0x79];

/// The header list of a GET request for `path` at `authority` over https:
/// `:method`, `:path`, `:scheme` and `:authority`, in this order, and then the
/// headers of `more` in theirs.
pub open spec fn get_request_spec(
    authority: Seq<u8>,
    path: Seq<u8>,
    more: HeaderSeq,
) -> HeaderSeq {
    seq![(METHOD@, GET@), (PATH@, path), (SCHEME@, HTTPS@), (AUTHORITY@, authority)] + more
}

/// The view of a byte vector is the same at every depth.
pub proof fn lemma_bytes_deep_view(bytes: Vec<u8>)
    ensures
        bytes.deep_view() == bytes@,
{
    assert(bytes.deep_view() =~= bytes@);
}

/// A (name, value) pair of owned bytes.
fn header(name: &[u8], value: &[u8]) -> (h: (Vec<u8>, Vec<u8>))
    ensures
        h.deep_view() == (name@, value@),
{
    let h = (slice_to_vec(name), slice_to_vec(value));
    proof {
        lemma_bytes_deep_view(h.0);
        lemma_bytes_deep_view(h.1);
    }
    h
}

/// Makes the header list of a GET request for `path` at `authority` over
/// https. The pseudo-headers come first, as HTTP/2 asks; the headers of
/// `more` follow them unchanged.
pub fn get_request(authority: &[u8], path: &[u8], more: HeaderList) -> (headers: HeaderList)
    ensures
        headers.deep_view() == get_request_spec(authority@, path@, more.deep_view()),
{
    let mut more = more;
    let ghost rest = more@;
    let ghost wanted = get_request_spec(authority@, path@, more.deep_view());
    let mut headers: HeaderList = Vec::new();
    headers.push(header(METHOD.as_slice(), GET.as_slice()));
    headers.push(header(PATH.as_slice(), path));
    headers.push(header(SCHEME.as_slice(), HTTPS.as_slice()));
    headers.push(header(AUTHORITY.as_slice(), authority));
    headers.append(&mut more);
    proof {
        assert(headers.deep_view().len() == wanted.len());
        assert forall|i: int| 0 <= i < wanted.len() implies headers.deep_view()[i] == wanted[i] by {
            if i >= 4 {
                assert(headers@[i] == rest[i - 4]);
            }
        }
        assert(headers.deep_view() =~= wanted);
    }
    headers
}

} // verus!
