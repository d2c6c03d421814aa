//! Key pairs and the addresses that stand for them.

use crate::address::{address_text, encode_address};
use crate::digest::{ripemd160, ripemd160_bytes};
use crate::error::LedgerError;
use crate::signature::{ed25519_keypair, ed25519_keys};
use crate::txs::bytes_to_vec;
use rand::RngCore;
use vstd::prelude::*;

verus! {

/// A signing key with the public key that belongs to it.
#[derive(Debug, PartialEq)]
pub struct Wallet {
    pub secret_key: Vec<u8>,
    pub public_key: Vec<u8>,
}

/// A wallet as contracts speak of it.
pub struct WalletView {
    pub secret_key: Seq<u8>,
    pub public_key: Seq<u8>,
}

impl View for Wallet {
    type V = WalletView;

    open spec fn view(&self) -> WalletView {
        WalletView { secret_key: self.secret_key@, public_key: self.public_key@ }
    }
}

impl Clone for Wallet {
    fn clone(&self) -> (copy: Self)
        ensures
            copy@ == self@,
    {
        Wallet {
            secret_key: bytes_to_vec(self.secret_key.as_slice()),
            public_key: bytes_to_vec(self.public_key.as_slice()),
        }
    }
}

/// Calls `OsRng::try_fill_bytes` of the `rand` crate on a buffer of 32
/// bytes. Trusted: where it succeeds the buffer is handed back whole. Nothing
/// is claimed of the bytes.
#[verifier::external_body]
fn random_seed() -> (seed: Option<Vec<u8>>)
    ensures
        match seed {
            Some(s) => s@.len() == 32,
            None => true,
        },
{
    let mut key: [u8; 32] = [0; 32];
    match rand::rngs::OsRng.try_fill_bytes(&mut key) {
        Ok(()) => Some(key.to_vec()),
        Err(_) => None,
    }
}

/// The address of the wallet with public key `public_key`: the base-58 text
/// of the key's RIPEMD-160 digest.
pub open spec fn address_of(public_key: Seq<u8>) -> Seq<char> {
    address_text(ripemd160(public_key))
}

/// The wallet derived from `seed`.
pub open spec fn wallet_of(seed: Seq<u8>) -> WalletView {
    WalletView { secret_key: ed25519_keys(seed).0, public_key: ed25519_keys(seed).1 }
}

impl Wallet {
    /// A wallet with a key pair derived from fresh random bytes. Fails, with
    /// `Randomness`, where the system gives none.
    pub fn new() -> (made: Result<Wallet, LedgerError>)
        ensures
            match made {
                Ok(wallet) => exists|seed: Seq<u8>|
                    seed.len() == 32 && wallet@ == #[trigger] wallet_of(seed),
                Err(e) => e == LedgerError::Randomness,
            },
    {
        match random_seed() {
            Some(seed) => {
                let wallet = Wallet::from_seed(seed.as_slice());
                assert(wallet@ == wallet_of(seed@));
                Ok(wallet)
            },
            None => Err(LedgerError::Randomness),
        }
    }

    /// The wallet with the key pair derived from `seed`.
    pub fn from_seed(seed: &[u8]) -> (wallet: Wallet)
        ensures
            wallet@ == wallet_of(seed@),
            wallet@.secret_key.len() == 64,
            wallet@.public_key.len() == 32,
    {
        let (secret_key, public_key) = ed25519_keypair(seed);
        Wallet { secret_key, public_key }
    }

    /// The address that stands for the wallet.
    pub fn get_address(&self) -> (address: String)
        ensures
            address@ == address_of(self@.public_key),
    {
        let pub_hash = ripemd160_bytes(self.public_key.as_slice());
        encode_address(pub_hash.as_slice())
    }
}

} // verus!
