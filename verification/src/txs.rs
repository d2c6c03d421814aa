//! Inputs and outputs of transactions.

use crate::address::{address_to_hash, hash_of_address};
use crate::codec::{InputFields, InputParts, OutputFields, OutputParts};
use crate::digest::{ripemd160, ripemd160_bytes};
use crate::error::LedgerError;
use vstd::prelude::*;

verus! {

/// Whether two byte strings are the same.
pub fn bytes_eq(a: &[u8], b: &[u8]) -> (same: bool)
    ensures
        same == (a@ == b@),
{
    if a.len() != b.len() {
        return false;
    }
    let mut i: usize = 0;
    while i < a.len()
        invariant
            a@.len() == b@.len(),
            i <= a@.len(),
            forall|k: int| 0 <= k < i ==> a@[k] == b@[k],
        decreases a@.len() - i,
    {
        if a[i] != b[i] {
            return false;
        }
        i = i + 1;
    }
    assert(a@ =~= b@);
    true
}

/// A fresh vector with the bytes of `a`.
pub fn bytes_to_vec(a: &[u8]) -> (v: Vec<u8>)
    ensures
        v@ == a@,
{
    let mut v: Vec<u8> = Vec::new();
    let mut i: usize = 0;
    while i < a.len()
        invariant
            i <= a@.len(),
            v@ == a@.take(i as int),
        decreases a@.len() - i,
    {
        v.push(a[i]);
        assert(a@.take(i + 1) =~= a@.take(i as int).push(a@[i as int]));
        i = i + 1;
    }
    assert(a@.take(a@.len() as int) =~= a@);
    v
}

/// A reference to an output of an earlier transaction, with what unlocks it.
#[derive(Debug)]
pub struct TXInput {
    /// Id of the transaction whose output is spent; empty in a coinbase.
    pub txid: String,
    /// Index of that output; `-1` in a coinbase.
    pub vout: i32,
    /// Signature over the signing digest; empty until signed.
    pub signature: Vec<u8>,
    /// Public key of the spender; free memo bytes in a coinbase.
    pub pub_key: Vec<u8>,
}

/// An input as contracts speak of it.
pub struct TXInputView {
    pub txid: Seq<char>,
    pub vout: i32,
    pub signature: Seq<u8>,
    pub pub_key: Seq<u8>,
}

impl View for TXInput {
    type V = TXInputView;

    open spec fn view(&self) -> TXInputView {
        TXInputView {
            txid: self.txid@,
            vout: self.vout,
            signature: self.signature@,
            pub_key: self.pub_key@,
        }
    }
}

impl Clone for TXInput {
    fn clone(&self) -> (copy: Self)
        ensures
            copy@ == self@,
    {
        TXInput {
            txid: self.txid.clone(),
            vout: self.vout,
            signature: bytes_to_vec(self.signature.as_slice()),
            pub_key: bytes_to_vec(self.pub_key.as_slice()),
        }
    }
}

/// The input as the tuple that is encoded.
pub open spec fn input_fields(input: TXInputView) -> InputFields {
    (input.txid, input.vout, input.signature, input.pub_key)
}

/// The input that an encoded tuple stands for.
pub open spec fn input_of_fields(fields: InputFields) -> TXInputView {
    TXInputView { txid: fields.0, vout: fields.1, signature: fields.2, pub_key: fields.3 }
}

impl TXInput {
    /// Whether the key held by this input hashes to `pub_key_hash`.
    pub fn uses_key(&self, pub_key_hash: &[u8]) -> (uses: bool)
        ensures
            uses == (ripemd160(self@.pub_key) == pub_key_hash@),
    {
        let digest = ripemd160_bytes(self.pub_key.as_slice());
        bytes_eq(digest.as_slice(), pub_key_hash)
    }

    /// The input as the tuple that is encoded.
    pub fn to_parts(&self) -> (parts: InputParts)
        ensures
            parts.deep_view() == input_fields(self@),
    {
        (
            self.txid.clone(),
            self.vout,
            bytes_to_vec(self.signature.as_slice()),
            bytes_to_vec(self.pub_key.as_slice()),
        )
    }
}

/// A value locked to the hash of a public key.
#[derive(Debug)]
pub struct TXOutput {
    /// The amount held.
    pub value: i32,
    /// RIPEMD-160 digest of the public key that may spend it.
    pub pub_key_hash: Vec<u8>,
}

/// An output as contracts speak of it.
pub struct TXOutputView {
    pub value: i32,
    pub pub_key_hash: Seq<u8>,
}

impl View for TXOutput {
    type V = TXOutputView;

    open spec fn view(&self) -> TXOutputView {
        TXOutputView { value: self.value, pub_key_hash: self.pub_key_hash@ }
    }
}

impl Clone for TXOutput {
    fn clone(&self) -> (copy: Self)
        ensures
            copy@ == self@,
    {
        TXOutput { value: self.value, pub_key_hash: bytes_to_vec(self.pub_key_hash.as_slice()) }
    }
}

/// The output as the tuple that is encoded.
pub open spec fn output_fields(output: TXOutputView) -> OutputFields {
    (output.value, output.pub_key_hash)
}

/// The output that an encoded tuple stands for.
pub open spec fn output_of_fields(fields: OutputFields) -> TXOutputView {
    TXOutputView { value: fields.0, pub_key_hash: fields.1 }
}

impl TXOutput {
    /// Whether the output is locked to `pub_key_hash`.
    pub fn is_locked_with_key(&self, pub_key_hash: &[u8]) -> (locked: bool)
        ensures
            locked == (self@.pub_key_hash == pub_key_hash@),
    {
        bytes_eq(self.pub_key_hash.as_slice(), pub_key_hash)
    }

    /// An output of `value` locked to the hash that `address` stands for.
    /// Fails, with `InvalidAddress`, exactly where the text is no address.
    pub fn new(value: i32, address: String) -> (made: Result<Self, LedgerError>)
        ensures
            match made {
                Ok(output) => hash_of_address(address@) == Some(output@.pub_key_hash)
                    && output@.value == value,
                Err(e) => e == LedgerError::InvalidAddress && hash_of_address(address@) is None,
            },
    {
        let mut output = TXOutput { value, pub_key_hash: Vec::new() };
        match output.lock(address.as_str()) {
            Ok(()) => Ok(output),
            Err(e) => Err(e),
        }
    }

    /// Locks the output to the hash that `address` stands for, and leaves it
    /// as it was where the text is no address.
    pub fn lock(&mut self, address: &str) -> (done: Result<(), LedgerError>)
        ensures
            final(self)@.value == old(self)@.value,
            match done {
                Ok(()) => hash_of_address(address@) == Some(final(self)@.pub_key_hash),
                Err(e) => e == LedgerError::InvalidAddress && hash_of_address(address@) is None
                    && final(self)@ == old(self)@,
            },
    {
        match address_to_hash(address) {
            Some(hash) => {
                self.pub_key_hash = hash;
                Ok(())
            },
            None => Err(LedgerError::InvalidAddress),
        }
    }

    /// The output as the tuple that is encoded.
    pub fn to_parts(&self) -> (parts: OutputParts)
        ensures
            parts.deep_view() == output_fields(self@),
    {
        (self.value, bytes_to_vec(self.pub_key_hash.as_slice()))
    }
}

} // verus!
