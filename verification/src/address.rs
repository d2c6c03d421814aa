//! Address text. Encoding and decoding are done by the `bitcoincash_addr`
//! crate; this module names their results and guards the decoder against the
//! texts it cannot take.

use vstd::prelude::*;
use vstd::string::StrSliceExecFns;

verus! {

/// The hash that the address `text` stands for, where it is an address at all.
pub uninterp spec fn address_body(text: Seq<char>) -> Option<Seq<u8>>;

/// The base-58 script address of the hash `body`.
pub uninterp spec fn address_text(body: Seq<u8>) -> Seq<char>;

/// Number of `':'` characters in `text`.
pub open spec fn colon_count(text: Seq<char>) -> nat
    decreases text.len(),
{
    if text.len() == 0 {
        0
    } else {
        colon_count(text.drop_last()) + if text.last() == ':' {
            1nat
        } else {
            0nat
        }
    }
}

/// Position of the last `':'` in `text`, or `-1` when it has none.
pub open spec fn last_colon(text: Seq<char>) -> int
    decreases text.len(),
{
    if text.len() == 0 {
        -1
    } else if text.last() == ':' {
        text.len() - 1
    } else {
        last_colon(text.drop_last())
    }
}

/// Texts the decoder can be handed: a text split in two by a single `':'`
/// must carry at least ten characters behind it, since the decoder cuts an
/// eight-character checksum off that part and reads a version byte from the
/// rest.
pub open spec fn decodable_shape(text: Seq<char>) -> bool {
    colon_count(text) == 1 ==> text.len() - last_colon(text) - 1 >= 10
}

/// Calls `Address::decode` of the `bitcoincash_addr` crate and keeps the
/// `body` of the address. Trusted: on a text of decodable shape the call
/// returns, and what it returns depends on the text alone.
#[verifier::external_body]
pub(crate) fn decode_address(text: &str) -> (body: Option<Vec<u8>>)
    requires
        decodable_shape(text@),
    ensures
        match body {
            Some(b) => address_body(text@) == Some(b@),
            None => address_body(text@) is None,
        },
{
    match bitcoincash_addr::Address::decode(text) {
        Ok(address) => Some(address.body),
        Err(_) => None,
    }
}

/// Calls `Address::encode` of the `bitcoincash_addr` crate on a base-58
/// script address of the main network with `body` as its hash. Trusted: the
/// base-58 scheme never fails, and the text depends on `body` alone.
#[verifier::external_body]
pub(crate) fn encode_address(body: &[u8]) -> (text: String)
    ensures
        text@ == address_text(body@),
{
    let address = bitcoincash_addr::Address {
        body: body.to_vec(),
        scheme: bitcoincash_addr::Scheme::Base58,
        hash_type: bitcoincash_addr::HashType::Script,
        ..Default::default()
    };
    address.encode().unwrap()
}

/// Whether `text` has a shape the decoder can be handed.
pub fn has_decodable_shape(text: &str) -> (ok: bool)
    ensures
        ok == decodable_shape(text@),
{
    let n: usize = text.unicode_len();
    let mut count: usize = 0;
    let mut last: usize = 0;
    let mut i: usize = 0;
    while i < n
        invariant
            n == text@.len(),
            i <= n,
            count == colon_count(text@.take(i as int)),
            count <= i,
            count > 0 ==> last < i && last == last_colon(text@.take(i as int)),
            count == 0 ==> last_colon(text@.take(i as int)) == -1,
        decreases n - i,
    {
        let c = text.get_char(i);
        proof {
            assert(text@.take(i + 1).drop_last() =~= text@.take(i as int));
            assert(text@.take(i + 1).last() == text@[i as int]);
        }
        if c == ':' {
            count = count + 1;
            last = i;
        }
        i = i + 1;
    }
    proof {
        assert(text@.take(n as int) =~= text@);
    }
    count != 1 || n - last > 10
}

/// Decodes an address to the hash it stands for. `None` where the text is no
/// address, which includes every text whose shape the decoder cannot take.
pub fn address_to_hash(text: &str) -> (body: Option<Vec<u8>>)
    ensures
        match body {
            Some(b) => hash_of_address(text@) == Some(b@),
            None => hash_of_address(text@) is None,
        },
{
    if has_decodable_shape(text) {
        decode_address(text)
    } else {
        None
    }
}

/// The hash that `text` stands for: [`address_body`] on texts of decodable
/// shape, nothing on the others.
pub open spec fn hash_of_address(text: Seq<char>) -> Option<Seq<u8>> {
    if decodable_shape(text) {
        address_body(text)
    } else {
        None
    }
}

} // verus!
