//! Whole-file content digests: the alternate change-detection strategy.
//! A digest can be attached to a file record for reporting; the active
//! reconciliation decision compares bytes directly (see `detect`).

use vstd::prelude::*;

use sha2::Digest;

verus! {

/// The SHA-256 digest of a byte string: 32 bytes, a function of the input
/// bytes alone.
pub uninterp spec fn sha256_of(bytes: Seq<u8>) -> Seq<u8>;

/// A nibble as a lower-case hex digit.
pub open spec fn hex_digit(n: u8) -> char {
    if n == 0 {
        '0'
    } else if n == 1 {
        '1'
    } else if n == 2 {
        '2'
    } else if n == 3 {
        '3'
    } else if n == 4 {
        '4'
    } else if n == 5 {
        '5'
    } else if n == 6 {
        '6'
    } else if n == 7 {
        '7'
    } else if n == 8 {
        '8'
    } else if n == 9 {
        '9'
    } else if n == 10 {
        'a'
    } else if n == 11 {
        'b'
    } else if n == 12 {
        'c'
    } else if n == 13 {
        'd'
    } else if n == 14 {
        'e'
    } else {
        'f'
    }
}

/// A byte string rendered as lower-case hex: two digits per byte, high
/// nibble first, in input order.
pub open spec fn hex_encoding(bytes: Seq<u8>) -> Seq<char>
    decreases bytes.len(),
{
    if bytes.len() == 0 {
        Seq::empty()
    } else {
        hex_encoding(bytes.drop_last()) + seq![
            hex_digit(bytes.last() / 16),
            hex_digit(bytes.last() % 16),
        ]
    }
}

/// The hex rendering is two characters per byte.
pub proof fn lemma_hex_encoding_len(bytes: Seq<u8>)
    ensures
        hex_encoding(bytes).len() == 2 * bytes.len(),
    decreases bytes.len(),
{
    if bytes.len() > 0 {
        lemma_hex_encoding_len(bytes.drop_last());
    }
}

/// Relies on sha2's Sha256: the digest is 32 bytes and depends on the
/// input bytes alone.
#[verifier::external_body]
fn sha256_digest(bytes: &Vec<u8>) -> (r: Vec<u8>)
    ensures
        r@ == sha256_of(bytes@),
        r@.len() == 32,
{
    sha2::Sha256::digest(bytes).to_vec()
}

/// Relies on hex::encode: each input byte becomes two lower-case hex
/// digits, high nibble first, in input order.
#[verifier::external_body]
fn hex_encode(bytes: &Vec<u8>) -> (r: String)
    ensures
        r@ == hex_encoding(bytes@),
{
    hex::encode(bytes)
}

/// Renders a byte string (such as a digest) as lower-case hex.
pub fn bytes_to_hex(bytes: &Vec<u8>) -> (r: String)
    ensures
        r@ == hex_encoding(bytes@),
{
    hex_encode(bytes)
}

/// The lower-case hex rendering of the SHA-256 digest of the given bytes.
pub fn hash_from_bytes(bytes: &Vec<u8>) -> (r: String)
    ensures
        r@ == hex_encoding(sha256_of(bytes@)),
        r@.len() == 64,
{
    let digest = sha256_digest(bytes);
    proof {
        lemma_hex_encoding_len(digest@);
    }
    bytes_to_hex(&digest)
}

} // verus!
