//! Canonical byte encoding. Values are encoded and decoded by the `bincode`
//! crate in its default configuration; this module hands it tuples of plain
//! values and names what comes back.

use vstd::prelude::*;

verus! {

/// An input as the encoder sees it: referenced id, output index, signature,
/// public key.
pub type InputParts = (String, i32, Vec<u8>, Vec<u8>);

/// An output as the encoder sees it: value and the hash it is locked to.
pub type OutputParts = (i32, Vec<u8>);

/// A transaction as the encoder sees it: id, inputs, outputs.
pub type TransactionParts = (String, Vec<InputParts>, Vec<OutputParts>);

/// [`InputParts`] as plain values.
pub type InputFields = (Seq<char>, i32, Seq<u8>, Seq<u8>);

/// [`OutputParts`] as plain values.
pub type OutputFields = (i32, Seq<u8>);

/// [`TransactionParts`] as plain values.
pub type TransactionFields = (Seq<char>, Seq<InputFields>, Seq<OutputFields>);

/// The canonical encoding of a transaction, where it has one.
pub uninterp spec fn transaction_bytes(fields: TransactionFields) -> Option<Seq<u8>>;

/// The canonical encoding of the hashed part of a block header: previous
/// hash, Merkle root, timestamp, difficulty and nonce, where it has one.
pub uninterp spec fn header_bytes(
    prev_hash: Seq<char>,
    root: Seq<u8>,
    timestamp: u128,
    difficulty: u32,
    nonce: i32,
) -> Option<Seq<u8>>;

/// Calls `bincode::serialize` on a transaction's id, inputs and outputs.
/// Trusted: whether it succeeds, and with which bytes, depends on those
/// values alone.
#[verifier::external_body]
pub(crate) fn encode_transaction(parts: &TransactionParts) -> (bytes: Option<Vec<u8>>)
    ensures
        match bytes {
            Some(b) => transaction_bytes(parts.deep_view()) == Some(b@),
            None => transaction_bytes(parts.deep_view()) is None,
        },
{
    bincode::serialize(parts).ok()
}

/// Calls `bincode::serialize` on the hashed part of a block header.
/// Trusted: whether it succeeds, and with which bytes, depends on the five
/// values alone.
#[verifier::external_body]
pub(crate) fn encode_header(
    prev_hash: &String,
    root: &Vec<u8>,
    timestamp: u128,
    difficulty: u32,
    nonce: i32,
) -> (bytes: Option<Vec<u8>>)
    ensures
        match bytes {
            Some(b) => header_bytes(prev_hash@, root@, timestamp, difficulty, nonce) == Some(b@),
            None => header_bytes(prev_hash@, root@, timestamp, difficulty, nonce) is None,
        },
{
    bincode::serialize(&(prev_hash, root, timestamp, difficulty, nonce)).ok()
}

/// A block as the encoder sees it: timestamp, hash, previous hash,
/// transactions, nonce, height, version, difficulty.
pub type BlockParts = (u128, String, String, Vec<TransactionParts>, i32, i32, i8, u32);

/// [`BlockParts`] as plain values.
pub type BlockFields = (u128, Seq<char>, Seq<char>, Seq<TransactionFields>, i32, i32, i8, u32);

/// The payload of a `version` message: sender, version, height.
pub type VersionParts = (String, i32, i32);

/// [`VersionParts`] as plain values.
pub type VersionFields = (Seq<char>, i32, i32);

/// The payload of a `getdata` message: sender, number of the kind, id.
pub type GetDataParts = (String, u32, String);

/// [`GetDataParts`] as plain values.
pub type GetDataFields = (Seq<char>, u32, Seq<char>);

/// The payload of an `inv` message: sender, kind, items.
pub type InventoryParts = (String, String, Vec<String>);

/// [`InventoryParts`] as plain values.
pub type InventoryFields = (Seq<char>, Seq<char>, Seq<Seq<char>>);

/// The payload of a `tx` message: sender and transaction.
pub type TxParts = (String, TransactionParts);

/// [`TxParts`] as plain values.
pub type TxFields = (Seq<char>, TransactionFields);

/// The payload of a `block` message: sender and block.
pub type BlockMessageParts = (String, BlockParts);

/// [`BlockMessageParts`] as plain values.
pub type BlockMessageFields = (Seq<char>, BlockFields);

/// The canonical encoding of a list of peer addresses, where it has one.
pub uninterp spec fn addr_bytes(peers: Seq<Seq<char>>) -> Option<Seq<u8>>;

/// The list of peer addresses that `bytes` decode to, where they do.
pub uninterp spec fn addr_decoded(bytes: Seq<u8>) -> Option<Seq<Seq<char>>>;

/// The canonical encoding of a `version` payload, where it has one.
pub uninterp spec fn version_bytes(fields: VersionFields) -> Option<Seq<u8>>;

/// The `version` payload that `bytes` decode to, where they do.
pub uninterp spec fn version_decoded(bytes: Seq<u8>) -> Option<VersionFields>;

/// The canonical encoding of a `getblocks` payload, the sender's address,
/// where it has one.
pub uninterp spec fn get_blocks_bytes(from: Seq<char>) -> Option<Seq<u8>>;

/// The `getblocks` payload that `bytes` decode to, where they do.
pub uninterp spec fn get_blocks_decoded(bytes: Seq<u8>) -> Option<Seq<char>>;

/// The canonical encoding of a `getdata` payload, where it has one.
pub uninterp spec fn get_data_bytes(fields: GetDataFields) -> Option<Seq<u8>>;

/// The `getdata` payload that `bytes` decode to, where they do.
pub uninterp spec fn get_data_decoded(bytes: Seq<u8>) -> Option<GetDataFields>;

/// The canonical encoding of an `inv` payload, where it has one.
pub uninterp spec fn inventory_bytes(fields: InventoryFields) -> Option<Seq<u8>>;

/// The `inv` payload that `bytes` decode to, where they do.
pub uninterp spec fn inventory_decoded(bytes: Seq<u8>) -> Option<InventoryFields>;

/// The canonical encoding of a `tx` payload, where it has one.
pub uninterp spec fn tx_message_bytes(fields: TxFields) -> Option<Seq<u8>>;

/// The `tx` payload that `bytes` decode to, where they do.
pub uninterp spec fn tx_message_decoded(bytes: Seq<u8>) -> Option<TxFields>;

/// The canonical encoding of a `block` payload, where it has one.
pub uninterp spec fn block_message_bytes(fields: BlockMessageFields) -> Option<Seq<u8>>;

/// The `block` payload that `bytes` decode to, where they do.
pub uninterp spec fn block_message_decoded(bytes: Seq<u8>) -> Option<BlockMessageFields>;

/// Calls `bincode::serialize` on a list of peer addresses. Trusted: whether
/// it succeeds, and with which bytes, depends on the list alone.
#[verifier::external_body]
pub(crate) fn encode_addr(peers: &Vec<String>) -> (bytes: Option<Vec<u8>>)
    ensures
        match bytes {
            Some(b) => addr_bytes(peers.deep_view()) == Some(b@),
            None => addr_bytes(peers.deep_view()) is None,
        },
{
    bincode::serialize(peers).ok()
}

/// Calls `bincode::deserialize` for a list of peer addresses. Trusted:
/// whether it succeeds, and with which list, depends on the bytes alone.
#[verifier::external_body]
pub(crate) fn decode_addr(bytes: &[u8]) -> (peers: Option<Vec<String>>)
    ensures
        match peers {
            Some(p) => addr_decoded(bytes@) == Some(p.deep_view()),
            None => addr_decoded(bytes@) is None,
        },
{
    bincode::deserialize::<Vec<String>>(bytes).ok()
}

/// Calls `bincode::serialize` on a `version` payload. Trusted: whether it
/// succeeds, and with which bytes, depends on the payload alone.
#[verifier::external_body]
pub(crate) fn encode_version(parts: &VersionParts) -> (bytes: Option<Vec<u8>>)
    ensures
        match bytes {
            Some(b) => version_bytes(parts.deep_view()) == Some(b@),
            None => version_bytes(parts.deep_view()) is None,
        },
{
    bincode::serialize(parts).ok()
}

/// Calls `bincode::deserialize` for a `version` payload. Trusted: whether
/// it succeeds, and with which payload, depends on the bytes alone.
#[verifier::external_body]
pub(crate) fn decode_version(bytes: &[u8]) -> (parts: Option<VersionParts>)
    ensures
        match parts {
            Some(p) => version_decoded(bytes@) == Some(p.deep_view()),
            None => version_decoded(bytes@) is None,
        },
{
    bincode::deserialize::<VersionParts>(bytes).ok()
}

/// Calls `bincode::serialize` on a `getblocks` payload. Trusted: whether it
/// succeeds, and with which bytes, depends on the payload alone.
#[verifier::external_body]
pub(crate) fn encode_get_blocks(from: &String) -> (bytes: Option<Vec<u8>>)
    ensures
        match bytes {
            Some(b) => get_blocks_bytes(from@) == Some(b@),
            None => get_blocks_bytes(from@) is None,
        },
{
    bincode::serialize(from).ok()
}

/// Calls `bincode::deserialize` for a `getblocks` payload. Trusted: whether
/// it succeeds, and with which payload, depends on the bytes alone.
#[verifier::external_body]
pub(crate) fn decode_get_blocks(bytes: &[u8]) -> (from: Option<String>)
    ensures
        match from {
            Some(f) => get_blocks_decoded(bytes@) == Some(f@),
            None => get_blocks_decoded(bytes@) is None,
        },
{
    bincode::deserialize::<String>(bytes).ok()
}

/// Calls `bincode::serialize` on a `getdata` payload. Trusted: whether it
/// succeeds, and with which bytes, depends on the payload alone.
#[verifier::external_body]
pub(crate) fn encode_get_data(parts: &GetDataParts) -> (bytes: Option<Vec<u8>>)
    ensures
        match bytes {
            Some(b) => get_data_bytes(parts.deep_view()) == Some(b@),
            None => get_data_bytes(parts.deep_view()) is None,
        },
{
    bincode::serialize(parts).ok()
}

/// Calls `bincode::deserialize` for a `getdata` payload. Trusted: whether
/// it succeeds, and with which payload, depends on the bytes alone.
#[verifier::external_body]
pub(crate) fn decode_get_data(bytes: &[u8]) -> (parts: Option<GetDataParts>)
    ensures
        match parts {
            Some(p) => get_data_decoded(bytes@) == Some(p.deep_view()),
            None => get_data_decoded(bytes@) is None,
        },
{
    bincode::deserialize::<GetDataParts>(bytes).ok()
}

/// Calls `bincode::serialize` on an `inv` payload. Trusted: whether it
/// succeeds, and with which bytes, depends on the payload alone.
#[verifier::external_body]
pub(crate) fn encode_inventory(parts: &InventoryParts) -> (bytes: Option<Vec<u8>>)
    ensures
        match bytes {
            Some(b) => inventory_bytes(parts.deep_view()) == Some(b@),
            None => inventory_bytes(parts.deep_view()) is None,
        },
{
    bincode::serialize(parts).ok()
}

/// Calls `bincode::deserialize` for an `inv` payload. Trusted: whether it
/// succeeds, and with which payload, depends on the bytes alone.
#[verifier::external_body]
pub(crate) fn decode_inventory(bytes: &[u8]) -> (parts: Option<InventoryParts>)
    ensures
        match parts {
            Some(p) => inventory_decoded(bytes@) == Some(p.deep_view()),
            None => inventory_decoded(bytes@) is None,
        },
{
    bincode::deserialize::<InventoryParts>(bytes).ok()
}

/// Calls `bincode::serialize` on a `tx` payload. Trusted: whether it
/// succeeds, and with which bytes, depends on the payload alone.
#[verifier::external_body]
pub(crate) fn encode_tx_message(parts: &TxParts) -> (bytes: Option<Vec<u8>>)
    ensures
        match bytes {
            Some(b) => tx_message_bytes(parts.deep_view()) == Some(b@),
            None => tx_message_bytes(parts.deep_view()) is None,
        },
{
    bincode::serialize(parts).ok()
}

/// Calls `bincode::deserialize` for a `tx` payload. Trusted: whether it
/// succeeds, and with which payload, depends on the bytes alone.
#[verifier::external_body]
pub(crate) fn decode_tx_message(bytes: &[u8]) -> (parts: Option<TxParts>)
    ensures
        match parts {
            Some(p) => tx_message_decoded(bytes@) == Some(p.deep_view()),
            None => tx_message_decoded(bytes@) is None,
        },
{
    bincode::deserialize::<TxParts>(bytes).ok()
}

/// Calls `bincode::serialize` on a `block` payload. Trusted: whether it
/// succeeds, and with which bytes, depends on the payload alone.
#[verifier::external_body]
pub(crate) fn encode_block_message(parts: &BlockMessageParts) -> (bytes: Option<Vec<u8>>)
    ensures
        match bytes {
            Some(b) => block_message_bytes(parts.deep_view()) == Some(b@),
            None => block_message_bytes(parts.deep_view()) is None,
        },
{
    bincode::serialize(parts).ok()
}

/// Calls `bincode::deserialize` for a `block` payload. Trusted: whether it
/// succeeds, and with which payload, depends on the bytes alone.
#[verifier::external_body]
pub(crate) fn decode_block_message(bytes: &[u8]) -> (parts: Option<BlockMessageParts>)
    ensures
        match parts {
            Some(p) => block_message_decoded(bytes@) == Some(p.deep_view()),
            None => block_message_decoded(bytes@) is None,
        },
{
    bincode::deserialize::<BlockMessageParts>(bytes).ok()
}

} // verus!
