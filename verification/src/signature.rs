//! Ed25519 signatures. Keys are derived, messages signed and signatures
//! checked by the `crypto` crate; this module names what it returns and keeps
//! inputs it cannot take away from it.

use vstd::prelude::*;
use vstd::string::StringExecFns;

verus! {

/// The signature of `message` under the 64-byte signing key `secret_key`.
pub uninterp spec fn ed25519_signature(message: Seq<u8>, secret_key: Seq<u8>) -> Seq<u8>;

/// Whether `signature` is accepted for `message` under `public_key`.
pub uninterp spec fn ed25519_accepts(
    message: Seq<u8>,
    public_key: Seq<u8>,
    signature: Seq<u8>,
) -> bool;

/// The signing key and the public key derived from `seed`.
pub uninterp spec fn ed25519_keys(seed: Seq<u8>) -> (Seq<u8>, Seq<u8>);

/// Calls `ed25519::signature` of the `crypto` crate. Trusted: given a key of
/// at least 64 bytes it returns 64 bytes that depend on message and key
/// alone. A shorter key would make it index out of bounds.
#[verifier::external_body]
pub(crate) fn ed25519_sign(message: &[u8], secret_key: &[u8]) -> (signature: Vec<u8>)
    requires
        secret_key@.len() >= 64,
    ensures
        signature@ == ed25519_signature(message@, secret_key@),
        signature@.len() == 64,
{
    crypto::ed25519::signature(message, secret_key).to_vec()
}

/// Calls `ed25519::verify` of the `crypto` crate. Trusted: given a public key
/// of at least 32 bytes and a signature of at least 64 it returns, and its
/// answer depends on the three arguments alone. Shorter ones would make it
/// index out of bounds.
#[verifier::external_body]
pub(crate) fn ed25519_verify(message: &[u8], public_key: &[u8], signature: &[u8]) -> (ok: bool)
    requires
        public_key@.len() >= 32,
        signature@.len() >= 64,
    ensures
        ok == ed25519_accepts(message@, public_key@, signature@),
{
    crypto::ed25519::verify(message, public_key, signature)
}

/// Calls `ed25519::keypair` of the `crypto` crate. Trusted: it returns a
/// signing key of 64 bytes and a public key of 32 that depend on the seed
/// alone.
#[verifier::external_body]
pub(crate) fn ed25519_keypair(seed: &[u8]) -> (keys: (Vec<u8>, Vec<u8>))
    ensures
        (keys.0@, keys.1@) == ed25519_keys(seed@),
        keys.0@.len() == 64,
        keys.1@.len() == 32,
{
    let (secret_key, public_key) = crypto::ed25519::keypair(seed);
    (secret_key.to_vec(), public_key.to_vec())
}

/// Whether a signature stands: key and signature are long enough to be
/// checked at all, and the check accepts.
pub open spec fn signature_holds(message: Seq<u8>, public_key: Seq<u8>, signature: Seq<u8>) -> bool {
    public_key.len() >= 32 && signature.len() >= 64 && ed25519_accepts(
        message,
        public_key,
        signature,
    )
}

/// Checks `signature` for `message` under `public_key`. A key or signature
/// too short to be checked does not stand.
pub fn check_signature(message: &[u8], public_key: &[u8], signature: &[u8]) -> (ok: bool)
    ensures
        ok == signature_holds(message@, public_key@, signature@),
{
    if public_key.len() < 32 || signature.len() < 64 {
        false
    } else {
        ed25519_verify(message, public_key, signature)
    }
}

/// Signs `message` with `secret_key`. Nothing where the key is too short to
/// hold a seed and a public key.
pub fn sign_message(message: &[u8], secret_key: &[u8]) -> (signature: Option<Vec<u8>>)
    ensures
        match signature {
            Some(s) => secret_key@.len() >= 64 && s@ == ed25519_signature(message@, secret_key@),
            None => secret_key@.len() < 64,
        },
{
    if secret_key.len() < 64 {
        None
    } else {
        Some(ed25519_sign(message, secret_key))
    }
}

/// The greeting that the demonstration signer signs for `person`.
pub open spec fn greeting(person: Seq<char>) -> Seq<char> {
    "Hello, "@ + person + "!"@
}

/// The text `Hello, <person>!`.
pub fn format_message(person: &str) -> (text: String)
    ensures
        text@ == greeting(person@),
{
    let mut text = String::from_str("Hello, ");
    text.append(person);
    text.append("!");
    text
}

} // verus!
