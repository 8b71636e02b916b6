//! Identity hasher: the short stable media-file identifier.
//!
//! The identifier of a submitted file is derived from its basename, the
//! submitting user id, the file size as 8 big-endian bytes, and a sample
//! of the first bytes of its contents: the SHA-256 digest of that
//! concatenation, hex-encoded, truncated to its first 8 characters.
//! Callers hand in plain bytes; reading the file belongs to the edge.

use vstd::prelude::*;
use sha2::Digest;

verus! {

/// The SHA-256 digest of a byte sequence.  The digest is a pure function
/// of the input bytes; its value is left uninterpreted here and computed
/// only by the trusted wrapper below.
pub uninterp spec fn sha256_of(data: Seq<u8>) -> Seq<u8>;

/// Relies on sha2::Sha256: the digest depends on the input bytes alone
/// and is 32 bytes long.
#[verifier::external_body]
pub(crate) fn sha256(data: &Vec<u8>) -> (r: Vec<u8>)
    ensures
        r@ == sha256_of(data@),
        r@.len() == 32,
{
    let mut h = sha2::Sha256::new();
    h.update(&data[..]);
    h.finalize().to_vec()
}

/// The lowercase hex digit of a value below 16.
pub open spec fn hex_digit(n: int) -> char {
    if n == 0 { '0' }
    else if n == 1 { '1' }
    else if n == 2 { '2' }
    else if n == 3 { '3' }
    else if n == 4 { '4' }
    else if n == 5 { '5' }
    else if n == 6 { '6' }
    else if n == 7 { '7' }
    else if n == 8 { '8' }
    else if n == 9 { '9' }
    else if n == 10 { 'a' }
    else if n == 11 { 'b' }
    else if n == 12 { 'c' }
    else if n == 13 { 'd' }
    else if n == 14 { 'e' }
    else { 'f' }
}

/// Lowercase hex encoding: two digits per byte, high nibble first.
pub open spec fn hex_of(data: Seq<u8>) -> Seq<char> {
    Seq::new(data.len() * 2, |i: int|
        if i % 2 == 0 {
            hex_digit(data[i / 2] as int / 16)
        } else {
            hex_digit(data[i / 2] as int % 16)
        })
}

/// A lowercase hex digit character.
pub open spec fn is_lower_hex(c: char) -> bool {
    ('0' <= c && c <= '9') || ('a' <= c && c <= 'f')
}

pub proof fn lemma_hex_of_digits(data: Seq<u8>)
    ensures
        hex_of(data).len() == data.len() * 2,
        forall|i: int| 0 <= i < hex_of(data).len() ==> is_lower_hex(#[trigger] hex_of(data)[i]),
{
    assert forall|i: int| 0 <= i < hex_of(data).len()
        implies is_lower_hex(#[trigger] hex_of(data)[i]) by {
        if i % 2 == 0 {
            assert(0 <= data[i / 2] as int / 16 < 16);
        } else {
            assert(0 <= data[i / 2] as int % 16 < 16);
        }
    }
}

/// Relies on hex::encode: lowercase hex, two digits per byte, high
/// nibble first.
#[verifier::external_body]
pub(crate) fn hex_encode(data: &Vec<u8>) -> (r: String)
    ensures
        r@ == hex_of(data@),
{
    hex::encode(data)
}

/// The file size as 8 big-endian bytes.
pub open spec fn u64_be_bytes(n: u64) -> Seq<u8> {
    seq![
        ((n >> 56) & 0xff) as u8,
        ((n >> 48) & 0xff) as u8,
        ((n >> 40) & 0xff) as u8,
        ((n >> 32) & 0xff) as u8,
        ((n >> 24) & 0xff) as u8,
        ((n >> 16) & 0xff) as u8,
        ((n >> 8) & 0xff) as u8,
        (n & 0xff) as u8,
    ]
}

fn be_bytes(n: u64) -> (r: Vec<u8>)
    ensures
        r@ == u64_be_bytes(n),
{
    let mut r: Vec<u8> = Vec::new();
    r.push(((n >> 56) & 0xff) as u8);
    r.push(((n >> 48) & 0xff) as u8);
    r.push(((n >> 40) & 0xff) as u8);
    r.push(((n >> 32) & 0xff) as u8);
    r.push(((n >> 24) & 0xff) as u8);
    r.push(((n >> 16) & 0xff) as u8);
    r.push(((n >> 8) & 0xff) as u8);
    r.push((n & 0xff) as u8);
    proof {
        assert(r@ =~= u64_be_bytes(n));
    }
    r
}

/// The bytes the identity hash is computed over: basename, user id, size
/// as 8 big-endian bytes, then the contents sample.
pub open spec fn media_id_input(
    basename: Seq<u8>,
    user_id: Seq<u8>,
    size: u64,
    prefix: Seq<u8>,
) -> Seq<u8> {
    basename + user_id + u64_be_bytes(size) + prefix
}

/// The identity of a media file: the first 8 hex characters of the
/// SHA-256 digest of [`media_id_input`].
pub open spec fn spec_media_id(
    basename: Seq<u8>,
    user_id: Seq<u8>,
    size: u64,
    prefix: Seq<u8>,
) -> Seq<char> {
    hex_of(sha256_of(media_id_input(basename, user_id, size, prefix))).take(8)
}

/// Compute the identity of a media file from its basename, the
/// submitting user id, the file size, and a sample of its first bytes
/// (the first 32 KiB at most, as read by the caller).
pub fn media_id(basename: &Vec<u8>, user_id: &Vec<u8>, size: u64, prefix: &Vec<u8>) -> (r: String)
    requires
        basename@.len() + user_id@.len() + prefix@.len() + 8 <= usize::MAX,
    ensures
        r@ == spec_media_id(basename@, user_id@, size, prefix@),
        r@.len() == 8,
        forall|i: int| 0 <= i < r@.len() ==> is_lower_hex(#[trigger] r@[i]),
{
    let mut buf: Vec<u8> = Vec::new();
    buf.extend_from_slice(basename.as_slice());
    let sz = be_bytes(size);
    buf.extend_from_slice(user_id.as_slice());
    buf.extend_from_slice(sz.as_slice());
    buf.extend_from_slice(prefix.as_slice());
    proof {
        assert(buf@ =~= media_id_input(basename@, user_id@, size, prefix@));
    }
    let digest = sha256(&buf);
    let full = hex_encode(&digest);
    proof {
        lemma_hex_of_digits(digest@);
        assert(full@.len() == 64);
    }
    let id = String::from_str(full.as_str().substring_char(0, 8));
    proof {
        assert(id@ =~= spec_media_id(basename@, user_id@, size, prefix@));
        lemma_hex_of_digits(sha256_of(media_id_input(basename@, user_id@, size, prefix@)));
    }
    id
}

/// The identity hash is deterministic: equal inputs give the equal
/// identifier.  (That differing inputs give differing identifiers holds
/// only with overwhelming probability and is exercised by tests, not
/// proved.)
pub proof fn lemma_media_id_deterministic(
    b1: Seq<u8>, u1: Seq<u8>, s1: u64, p1: Seq<u8>,
    b2: Seq<u8>, u2: Seq<u8>, s2: u64, p2: Seq<u8>,
)
    requires
        b1 == b2,
        u1 == u2,
        s1 == s2,
        p1 == p2,
    ensures
        spec_media_id(b1, u1, s1, p1) == spec_media_id(b2, u2, s2, p2),
{
}

} // verus!
