//! The wire format: a command tag of fixed width, padded with zero bytes,
//! followed by the canonical encoding of the payload.

use crate::codec::{
    addr_bytes, addr_decoded, block_message_bytes, block_message_decoded, decode_addr,
    decode_block_message, decode_get_blocks, decode_get_data, decode_inventory, decode_tx_message,
    decode_version, encode_addr, encode_block_message, encode_get_blocks, encode_get_data,
    encode_inventory, encode_tx_message, encode_version, get_blocks_bytes, get_blocks_decoded,
    get_data_bytes, get_data_decoded, inventory_bytes, inventory_decoded, tx_message_bytes,
    tx_message_decoded, version_bytes, version_decoded,
};
use crate::constants::CMD_LEN;
use crate::error::LedgerError;
use crate::message::{
    block_message_fields, block_message_of_fields, get_data_fields, get_data_of_fields,
    inventory_fields, inventory_of_fields, texts, tx_fields, tx_of_fields, version_fields,
    version_of_fields, BlockMessage, GetBlockMessage, GetBlockMessageView, GetDataMessage,
    InventoryMessage, Message, MessageView, TxMessage, VersionMessage,
};
use crate::txs::bytes_eq;
use vstd::prelude::*;
use vstd::slice::slice_subrange;
use vstd::string::StringSliceAdditionalSpecFns;
use vstd::utf8::{is_ascii_chars, is_ascii_chars_encode_utf8};

verus! {

/// The bytes of `bytes` that are not zero, in order.
pub open spec fn without_zeros(bytes: Seq<u8>) -> Seq<u8>
    decreases bytes.len(),
{
    if bytes.len() == 0 {
        Seq::empty()
    } else if bytes.last() == 0 {
        without_zeros(bytes.drop_last())
    } else {
        without_zeros(bytes.drop_last()).push(bytes.last())
    }
}

/// A command name as a tag: the bytes of the name, then zero bytes up to the
/// width of the tag.
pub open spec fn padded(name: Seq<u8>) -> Seq<u8> {
    Seq::new(
        CMD_LEN as nat,
        |i: int|
            if i < name.len() {
                name[i]
            } else {
                0u8
            },
    )
}

/// The command that a message starts with: the bytes of its tag that are not
/// zero.
pub open spec fn command_of(bytes: Seq<u8>) -> Seq<u8> {
    without_zeros(bytes.take(CMD_LEN as int))
}

/// What follows the tag.
pub open spec fn payload_of(bytes: Seq<u8>) -> Seq<u8> {
    bytes.skip(CMD_LEN as int)
}

/// The message that `bytes` stand for. Bytes too few to hold a tag, or with
/// a tag that is none of the seven commands, give `UnknownCommand`; a payload
/// that does not decode to what the command calls for gives `Decoding`.
pub open spec fn parsed(bytes: Seq<u8>) -> Result<MessageView, LedgerError> {
    let command = command_of(bytes);
    let payload = payload_of(bytes);
    if bytes.len() < CMD_LEN {
        Err(LedgerError::UnknownCommand)
    } else if command == "addr".spec_bytes() {
        match addr_decoded(payload) {
            Some(peers) => Ok(MessageView::Addr(peers)),
            None => Err(LedgerError::Decoding),
        }
    } else if command == "block".spec_bytes() {
        match block_message_decoded(payload) {
            Some(fields) => Ok(MessageView::Block(block_message_of_fields(fields))),
            None => Err(LedgerError::Decoding),
        }
    } else if command == "inv".spec_bytes() {
        match inventory_decoded(payload) {
            Some(fields) => Ok(MessageView::Inv(inventory_of_fields(fields))),
            None => Err(LedgerError::Decoding),
        }
    } else if command == "getblocks".spec_bytes() {
        match get_blocks_decoded(payload) {
            Some(from) => Ok(MessageView::GetBlock(GetBlockMessageView { from })),
            None => Err(LedgerError::Decoding),
        }
    } else if command == "getdata".spec_bytes() {
        match get_data_decoded(payload) {
            Some(fields) => match get_data_of_fields(fields) {
                Some(m) => Ok(MessageView::GetData(m)),
                None => Err(LedgerError::Decoding),
            },
            None => Err(LedgerError::Decoding),
        }
    } else if command == "tx".spec_bytes() {
        match tx_message_decoded(payload) {
            Some(fields) => Ok(MessageView::Tx(tx_of_fields(fields))),
            None => Err(LedgerError::Decoding),
        }
    } else if command == "version".spec_bytes() {
        match version_decoded(payload) {
            Some(fields) => Ok(MessageView::Version(version_of_fields(fields))),
            None => Err(LedgerError::Decoding),
        }
    } else {
        Err(LedgerError::UnknownCommand)
    }
}

/// The name of the command that carries `msg`.
pub open spec fn command_name(msg: MessageView) -> Seq<u8> {
    match msg {
        MessageView::Addr(_) => "addr".spec_bytes(),
        MessageView::Block(_) => "block".spec_bytes(),
        MessageView::Inv(_) => "inv".spec_bytes(),
        MessageView::GetBlock(_) => "getblocks".spec_bytes(),
        MessageView::GetData(_) => "getdata".spec_bytes(),
        MessageView::Tx(_) => "tx".spec_bytes(),
        MessageView::Version(_) => "version".spec_bytes(),
    }
}

/// The canonical encoding of the payload of `msg`, where it has one.
pub open spec fn payload_bytes(msg: MessageView) -> Option<Seq<u8>> {
    match msg {
        MessageView::Addr(peers) => addr_bytes(peers),
        MessageView::Block(m) => block_message_bytes(block_message_fields(m)),
        MessageView::Inv(m) => inventory_bytes(inventory_fields(m)),
        MessageView::GetBlock(m) => get_blocks_bytes(m.from),
        MessageView::GetData(m) => get_data_bytes(get_data_fields(m)),
        MessageView::Tx(m) => tx_message_bytes(tx_fields(m)),
        MessageView::Version(m) => version_bytes(version_fields(m)),
    }
}

/// The bytes that go over the wire for `msg`: the tag of its command, then
/// its payload.
pub open spec fn framed(msg: MessageView) -> Option<Seq<u8>> {
    match payload_bytes(msg) {
        Some(payload) => Some(padded(command_name(msg)) + payload),
        None => None,
    }
}

/// The message that `bytes` stand for, as [`parsed`] defines it.
pub fn bytes_to_cmd(bytes: &[u8]) -> (msg: Result<Message, LedgerError>)
    ensures
        match msg {
            Ok(m) => parsed(bytes@) == Ok::<MessageView, LedgerError>(m@),
            Err(e) => parsed(bytes@) == Err::<MessageView, LedgerError>(e),
        },
{
    if bytes.len() < CMD_LEN {
        return Err(LedgerError::UnknownCommand);
    }
    let mut cmd: Vec<u8> = Vec::new();
    let mut i: usize = 0;
    while i < CMD_LEN
        invariant
            i <= CMD_LEN,
            CMD_LEN <= bytes@.len(),
            cmd@ == without_zeros(bytes@.take(i as int)),
        decreases CMD_LEN - i,
    {
        proof {
            assert(bytes@.take(i + 1).drop_last() =~= bytes@.take(i as int));
        }
        if bytes[i] != 0 {
            cmd.push(bytes[i]);
        }
        i = i + 1;
    }
    let data = slice_subrange(bytes, CMD_LEN, bytes.len());
    assert(data@ =~= payload_of(bytes@));
    if bytes_eq(cmd.as_slice(), "addr".as_bytes()) {
        match decode_addr(data) {
            Some(peers) => {
                assert(peers.deep_view() =~= texts(peers@));
                Ok(Message::Addr(peers))
            },
            None => Err(LedgerError::Decoding),
        }
    } else if bytes_eq(cmd.as_slice(), "block".as_bytes()) {
        match decode_block_message(data) {
            Some(parts) => Ok(Message::Block(BlockMessage::from_parts(&parts))),
            None => Err(LedgerError::Decoding),
        }
    } else if bytes_eq(cmd.as_slice(), "inv".as_bytes()) {
        match decode_inventory(data) {
            Some(parts) => Ok(Message::Inv(InventoryMessage::from_parts(&parts))),
            None => Err(LedgerError::Decoding),
        }
    } else if bytes_eq(cmd.as_slice(), "getblocks".as_bytes()) {
        match decode_get_blocks(data) {
            Some(from) => Ok(Message::GetBlock(GetBlockMessage { from })),
            None => Err(LedgerError::Decoding),
        }
    } else if bytes_eq(cmd.as_slice(), "getdata".as_bytes()) {
        match decode_get_data(data) {
            Some(parts) => match GetDataMessage::from_parts(&parts) {
                Some(m) => Ok(Message::GetData(m)),
                None => Err(LedgerError::Decoding),
            },
            None => Err(LedgerError::Decoding),
        }
    } else if bytes_eq(cmd.as_slice(), "tx".as_bytes()) {
        match decode_tx_message(data) {
            Some(parts) => Ok(Message::Tx(TxMessage::from_parts(&parts))),
            None => Err(LedgerError::Decoding),
        }
    } else if bytes_eq(cmd.as_slice(), "version".as_bytes()) {
        match decode_version(data) {
            Some(parts) => Ok(Message::Version(VersionMessage::from_parts(&parts))),
            None => Err(LedgerError::Decoding),
        }
    } else {
        Err(LedgerError::UnknownCommand)
    }
}

/// The tag for the command `cmd`: its bytes, then zero bytes up to the width
/// of the tag. A command longer than a tag is none.
pub fn cmd_to_bytes(cmd: &str) -> (data: [u8; CMD_LEN])
    requires
        cmd.spec_bytes().len() <= CMD_LEN,
    ensures
        data@ == padded(cmd.spec_bytes()),
{
    let mut data: [u8; CMD_LEN] = [0; CMD_LEN];
    let name = cmd.as_bytes();
    let mut i: usize = 0;
    while i < name.len()
        invariant
            i <= name@.len(),
            name@.len() <= CMD_LEN,
            data@.len() == CMD_LEN,
            forall|k: int| 0 <= k < i ==> data@[k] == name@[k],
            forall|k: int| i <= k < CMD_LEN ==> data@[k] == 0,
        decreases name@.len() - i,
    {
        data[i] = name[i];
        i = i + 1;
    }
    assert(data@ =~= padded(cmd.spec_bytes()));
    data
}

/// The tag for a command whose name is plain ASCII of at most the width of
/// a tag.
fn tag_of(name: &str) -> (data: [u8; CMD_LEN])
    requires
        is_ascii_chars(name@),
        name@.len() <= CMD_LEN,
    ensures
        data@ == padded(name.spec_bytes()),
{
    proof {
        is_ascii_chars_encode_utf8(name@);
    }
    cmd_to_bytes(name)
}

/// The tag of the command that carries `msg`.
pub fn command_tag(msg: &Message) -> (data: [u8; CMD_LEN])
    ensures
        data@ == padded(command_name(msg@)),
{
    proof {
        reveal_strlit("addr");
        reveal_strlit("block");
        reveal_strlit("inv");
        reveal_strlit("getblocks");
        reveal_strlit("getdata");
        reveal_strlit("tx");
        reveal_strlit("version");
    }
    match msg {
        Message::Addr(_) => tag_of("addr"),
        Message::Block(_) => tag_of("block"),
        Message::Inv(_) => tag_of("inv"),
        Message::GetBlock(_) => tag_of("getblocks"),
        Message::GetData(_) => tag_of("getdata"),
        Message::Tx(_) => tag_of("tx"),
        Message::Version(_) => tag_of("version"),
    }
}

/// The canonical encoding of the payload of `msg`.
pub fn encode_payload(msg: &Message) -> (bytes: Option<Vec<u8>>)
    ensures
        match bytes {
            Some(b) => payload_bytes(msg@) == Some(b@),
            None => payload_bytes(msg@) is None,
        },
{
    match msg {
        Message::Addr(peers) => {
            assert(peers.deep_view() =~= texts(peers@));
            encode_addr(peers)
        },
        Message::Block(m) => encode_block_message(&m.to_parts()),
        Message::Inv(m) => encode_inventory(&m.to_parts()),
        Message::GetBlock(m) => encode_get_blocks(&m.from),
        Message::GetData(m) => encode_get_data(&m.to_parts()),
        Message::Tx(m) => encode_tx_message(&m.to_parts()),
        Message::Version(m) => encode_version(&m.to_parts()),
    }
}

/// The bytes that go over the wire for `msg`, as [`framed`] defines them.
/// Fails, with `Encoding`, exactly where the payload cannot be encoded.
pub fn message_to_bytes(msg: &Message) -> (bytes: Result<Vec<u8>, LedgerError>)
    ensures
        match bytes {
            Ok(b) => framed(msg@) == Some(b@),
            Err(e) => e == LedgerError::Encoding && framed(msg@) is None,
        },
{
    let tag = command_tag(msg);
    let mut payload = match encode_payload(msg) {
        Some(p) => p,
        None => {
            return Err(LedgerError::Encoding);
        },
    };
    let mut out: Vec<u8> = Vec::new();
    let mut i: usize = 0;
    while i < CMD_LEN
        invariant
            i <= CMD_LEN,
            tag@.len() == CMD_LEN,
            out@ == tag@.take(i as int),
        decreases CMD_LEN - i,
    {
        out.push(tag[i]);
        assert(tag@.take(i + 1) =~= tag@.take(i as int).push(tag@[i as int]));
        i = i + 1;
    }
    assert(tag@.take(CMD_LEN as int) =~= tag@);
    out.append(&mut payload);
    Ok(out)
}

} // verus!
