//! Hash primitives. The digests themselves are computed by the `crypto`
//! crate; this module gives them names that contracts can speak of.

use crypto::digest::Digest;
use vstd::prelude::*;

verus! {

/// The SHA-256 digest of `data`: 32 bytes.
pub uninterp spec fn sha256(data: Seq<u8>) -> Seq<u8>;

/// The RIPEMD-160 digest of `data`: 20 bytes.
pub uninterp spec fn ripemd160(data: Seq<u8>) -> Seq<u8>;

/// The lower-case hexadecimal digit for a value below sixteen.
pub open spec fn hex_digit(n: int) -> char {
    if n == 0 {
        '0'
    } else if n == 1 {
        '1'
    } else if n == 2 {
        '2'
    } else if n == 3 {
        '3'
    } else if n == 4 {
        '4'
    } else if n == 5 {
        '5'
    } else if n == 6 {
        '6'
    } else if n == 7 {
        '7'
    } else if n == 8 {
        '8'
    } else if n == 9 {
        '9'
    } else if n == 10 {
        'a'
    } else if n == 11 {
        'b'
    } else if n == 12 {
        'c'
    } else if n == 13 {
        'd'
    } else if n == 14 {
        'e'
    } else {
        'f'
    }
}

/// Lower-case hexadecimal text of `bytes`, two characters per byte, high
/// nibble first.
pub open spec fn hex_text(bytes: Seq<u8>) -> Seq<char> {
    Seq::new(
        2 * bytes.len(),
        |i: int|
            if i % 2 == 0 {
                hex_digit(bytes[i / 2] as int / 16)
            } else {
                hex_digit(bytes[i / 2] as int % 16)
            },
    )
}

/// Calls `Sha256::input` and `Sha256::result` of the `crypto` crate on a fresh
/// hasher. Trusted: the 32 bytes written are the SHA-256 digest of `data`.
#[verifier::external_body]
pub(crate) fn sha256_bytes(data: &[u8]) -> (r: Vec<u8>)
    ensures
        r@ == sha256(data@),
        r@.len() == 32,
{
    let mut hasher = crypto::sha2::Sha256::new();
    hasher.input(data);
    let mut out: [u8; 32] = [0; 32];
    hasher.result(&mut out);
    out.to_vec()
}

/// Calls `Sha256::input` and `Digest::result_str` of the `crypto` crate on a
/// fresh hasher. Trusted: the text is the SHA-256 digest of `data` in
/// lower-case hexadecimal.
#[verifier::external_body]
pub(crate) fn sha256_hex(data: &[u8]) -> (r: String)
    ensures
        r@ == hex_text(sha256(data@)),
{
    let mut hasher = crypto::sha2::Sha256::new();
    hasher.input(data);
    hasher.result_str()
}

/// Calls `Ripemd160::input` and `Ripemd160::result` of the `crypto` crate on
/// a fresh hasher. Trusted: the 20 bytes written are the RIPEMD-160 digest of
/// `data`.
#[verifier::external_body]
pub(crate) fn ripemd160_bytes(data: &[u8]) -> (r: Vec<u8>)
    ensures
        r@ == ripemd160(data@),
        r@.len() == 20,
{
    let mut hasher = crypto::ripemd160::Ripemd160::new();
    hasher.input(data);
    let mut out: [u8; 20] = [0; 20];
    hasher.result(&mut out);
    out.to_vec()
}

/// Replaces a public key by the 20-byte digest that locks outputs to it.
pub fn hash_pub_key(pub_key: &mut Vec<u8>)
    ensures
        final(pub_key)@ == ripemd160(old(pub_key)@),
        final(pub_key)@.len() == 20,
{
    let digest = ripemd160_bytes(pub_key.as_slice());
    *pub_key = digest;
}

} // verus!
