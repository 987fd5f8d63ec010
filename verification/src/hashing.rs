//! Content hashing for the fetch cache: a cached upstream document is kept
//! only while its digest matches the hash the version manifest announces,
//! and a downloaded document is accepted only under the same test.

use vstd::prelude::*;
use vstd::string::*;

use crate::strutil::str_eq;

verus! {

/// The SHA-1 digest of a byte sequence.
pub uninterp spec fn sha1_of(data: Seq<u8>) -> Seq<u8>;

/// Relies on sha1::Sha1 through digest::Digest::digest: the SHA-1 digest of
/// the input, 20 bytes that depend on the input alone.
#[verifier::external_body]
fn sha1_digest(data: &[u8]) -> (r: Vec<u8>)
    ensures
        r@ == sha1_of(data@),
        r@.len() == 20,
{
    <sha1::Sha1 as sha1::Digest>::digest(data).to_vec()
}

/// The lowercase hex digit of a value below sixteen.
pub open spec fn hex_digit(n: u8) -> char {
    if n == 0 {
        '0'
    } else if n == 1 {
        '1'
    } else if n == 2 {
        '2'
    } else if n == 3 {
        '3'
    } else if n == 4 {
        '4'
    } else if n == 5 {
        '5'
    } else if n == 6 {
        '6'
    } else if n == 7 {
        '7'
    } else if n == 8 {
        '8'
    } else if n == 9 {
        '9'
    } else if n == 10 {
        'a'
    } else if n == 11 {
        'b'
    } else if n == 12 {
        'c'
    } else if n == 13 {
        'd'
    } else if n == 14 {
        'e'
    } else {
        'f'
    }
}

/// A byte sequence written as lowercase hex: two digits per byte, high
/// nibble first.
pub open spec fn hex_lower_of(data: Seq<u8>) -> Seq<char>
    decreases data.len(),
{
    if data.len() == 0 {
        Seq::<char>::empty()
    } else {
        seq![hex_digit(data.first() / 16), hex_digit(data.first() % 16)] + hex_lower_of(
            data.drop_first(),
        )
    }
}

/// Relies on data_encoding::HEXLOWER.encode: each input byte becomes its
/// two lowercase hex digits, high nibble first, in input order.
#[verifier::external_body]
fn hex_lower(data: &[u8]) -> (r: String)
    ensures
        r@ == hex_lower_of(data@),
{
    data_encoding::HEXLOWER.encode(data)
}

/// The SHA-1 digest of the content, written as lowercase hex.
pub fn content_sha1_hex(data: &[u8]) -> (r: String)
    ensures
        r@ == hex_lower_of(sha1_of(data@)),
{
    let digest = sha1_digest(data);
    hex_lower(digest.as_slice())
}

/// Whether cached or downloaded content carries the hash the manifest
/// announces for it.
pub fn content_matches_sha1(content: &[u8], expected_sha1_hex: &str) -> (r: bool)
    ensures
        r == (hex_lower_of(sha1_of(content@)) == expected_sha1_hex@),
{
    let h = content_sha1_hex(content);
    str_eq(h.as_str(), expected_sha1_hex)
}

/// The fetch-cache decision: an upstream document is fetched again exactly
/// when no local copy exists or the local copy's digest does not match the
/// announced hash.
pub fn needs_fetch(local_content: &Option<Vec<u8>>, expected_sha1_hex: &str) -> (r: bool)
    ensures
        r == !match *local_content {
            Some(ref c) => hex_lower_of(sha1_of(c@)) == expected_sha1_hex@,
            None => false,
        },
{
    match local_content {
        Some(c) => !content_matches_sha1(c.as_slice(), expected_sha1_hex),
        None => true,
    }
}

} // verus!
