//! The messages that peers exchange.

use crate::block::{block_fields, block_of_fields, Block, BlockView};
use crate::codec::{
    BlockMessageFields, BlockMessageParts, GetDataFields, GetDataParts, InventoryFields,
    InventoryParts, TxFields, TxParts, VersionFields, VersionParts,
};
use crate::transaction::{transaction_fields, transaction_of_fields, Transaction, TransactionView};
use vstd::prelude::*;
use vstd::string::StringExecFns;

verus! {

/// The text of each string of a list.
pub open spec fn texts(list: Seq<String>) -> Seq<Seq<char>> {
    list.map_values(|s: String| s@)
}

/// A fresh vector with copies of the strings of `list`.
pub fn clone_strings(list: &Vec<String>) -> (copy: Vec<String>)
    ensures
        texts(copy@) == texts(list@),
{
    let mut copy: Vec<String> = Vec::new();
    let mut i: usize = 0;
    while i < list.len()
        invariant
            i <= list@.len(),
            copy@.len() == i,
            forall|k: int| 0 <= k < i ==> copy@[k]@ == list@[k]@,
        decreases list@.len() - i,
    {
        copy.push(list[i].clone());
        i = i + 1;
    }
    assert(texts(copy@) =~= texts(list@));
    copy
}

/// What a `getdata` message asks for.
#[derive(Debug, Clone, Copy, PartialEq, Eq, Structural)]
pub enum DataRequestType {
    Block,
    Data,
    TX,
}

/// The number that stands for a kind of request on the wire.
pub open spec fn kind_number(kind: DataRequestType) -> u32 {
    match kind {
        DataRequestType::Block => 0,
        DataRequestType::Data => 1,
        DataRequestType::TX => 2,
    }
}

/// The kind of request that a number stands for on the wire.
pub open spec fn kind_of_number(number: u32) -> Option<DataRequestType> {
    if number == 0 {
        Some(DataRequestType::Block)
    } else if number == 1 {
        Some(DataRequestType::Data)
    } else if number == 2 {
        Some(DataRequestType::TX)
    } else {
        None
    }
}

impl DataRequestType {
    /// The name of the kind: `block`, `data` or `tx`.
    pub fn to_text(&self) -> (text: String)
        ensures
            text@ == match *self {
                DataRequestType::Block => "block"@,
                DataRequestType::Data => "data"@,
                DataRequestType::TX => "tx"@,
            },
    {
        match self {
            DataRequestType::Block => String::from_str("block"),
            DataRequestType::Data => String::from_str("data"),
            DataRequestType::TX => String::from_str("tx"),
        }
    }

    /// The number that stands for the kind on the wire.
    pub fn to_number(&self) -> (number: u32)
        ensures
            number == kind_number(*self),
    {
        match self {
            DataRequestType::Block => 0,
            DataRequestType::Data => 1,
            DataRequestType::TX => 2,
        }
    }

    /// The kind that `number` stands for on the wire, if it is one.
    pub fn from_number(number: u32) -> (kind: Option<DataRequestType>)
        ensures
            kind == kind_of_number(number),
    {
        if number == 0 {
            Some(DataRequestType::Block)
        } else if number == 1 {
            Some(DataRequestType::Data)
        } else if number == 2 {
            Some(DataRequestType::TX)
        } else {
            None
        }
    }
}

/// A peer announces its version and the height of its chain.
#[derive(Debug)]
pub struct VersionMessage {
    pub from: String,
    pub version: i32,
    pub height: i32,
}

/// A `version` message as contracts speak of it.
pub struct VersionMessageView {
    pub from: Seq<char>,
    pub version: i32,
    pub height: i32,
}

impl View for VersionMessage {
    type V = VersionMessageView;

    open spec fn view(&self) -> VersionMessageView {
        VersionMessageView { from: self.from@, version: self.version, height: self.height }
    }
}

/// A peer hands over a block.
#[derive(Debug)]
pub struct BlockMessage {
    pub from: String,
    pub block: Block,
}

/// A `block` message as contracts speak of it.
pub struct BlockMessageView {
    pub from: Seq<char>,
    pub block: BlockView,
}

impl View for BlockMessage {
    type V = BlockMessageView;

    open spec fn view(&self) -> BlockMessageView {
        BlockMessageView { from: self.from@, block: self.block@ }
    }
}

/// A peer asks for the hashes of all blocks.
#[derive(Debug)]
pub struct GetBlockMessage {
    pub from: String,
}

/// A `getblocks` message as contracts speak of it.
pub struct GetBlockMessageView {
    pub from: Seq<char>,
}

impl View for GetBlockMessage {
    type V = GetBlockMessageView;

    open spec fn view(&self) -> GetBlockMessageView {
        GetBlockMessageView { from: self.from@ }
    }
}

/// A peer asks for one block or one transaction.
#[derive(Debug)]
pub struct GetDataMessage {
    pub from: String,
    pub kind: DataRequestType,
    pub id: String,
}

/// A `getdata` message as contracts speak of it.
pub struct GetDataMessageView {
    pub from: Seq<char>,
    pub kind: DataRequestType,
    pub id: Seq<char>,
}

impl View for GetDataMessage {
    type V = GetDataMessageView;

    open spec fn view(&self) -> GetDataMessageView {
        GetDataMessageView { from: self.from@, kind: self.kind, id: self.id@ }
    }
}

/// A peer announces blocks or transactions it holds, by id.
#[derive(Debug)]
pub struct InventoryMessage {
    pub from: String,
    pub kind: String,
    pub items: Vec<String>,
}

/// An `inv` message as contracts speak of it.
pub struct InventoryMessageView {
    pub from: Seq<char>,
    pub kind: Seq<char>,
    pub items: Seq<Seq<char>>,
}

impl View for InventoryMessage {
    type V = InventoryMessageView;

    open spec fn view(&self) -> InventoryMessageView {
        InventoryMessageView { from: self.from@, kind: self.kind@, items: texts(self.items@) }
    }
}

/// A peer hands over a transaction.
#[derive(Debug)]
pub struct TxMessage {
    pub from: String,
    pub transaction: Transaction,
}

/// A `tx` message as contracts speak of it.
pub struct TxMessageView {
    pub from: Seq<char>,
    pub transaction: TransactionView,
}

impl View for TxMessage {
    type V = TxMessageView;

    open spec fn view(&self) -> TxMessageView {
        TxMessageView { from: self.from@, transaction: self.transaction@ }
    }
}

/// A message between peers.
#[derive(Debug)]
pub enum Message {
    Addr(Vec<String>),
    Version(VersionMessage),
    Tx(TxMessage),
    GetData(GetDataMessage),
    GetBlock(GetBlockMessage),
    Inv(InventoryMessage),
    Block(BlockMessage),
}

/// A message as contracts speak of it.
pub enum MessageView {
    Addr(Seq<Seq<char>>),
    Version(VersionMessageView),
    Tx(TxMessageView),
    GetData(GetDataMessageView),
    GetBlock(GetBlockMessageView),
    Inv(InventoryMessageView),
    Block(BlockMessageView),
}

impl View for Message {
    type V = MessageView;

    open spec fn view(&self) -> MessageView {
        match *self {
            Message::Addr(peers) => MessageView::Addr(texts(peers@)),
            Message::Version(m) => MessageView::Version(m@),
            Message::Tx(m) => MessageView::Tx(m@),
            Message::GetData(m) => MessageView::GetData(m@),
            Message::GetBlock(m) => MessageView::GetBlock(m@),
            Message::Inv(m) => MessageView::Inv(m@),
            Message::Block(m) => MessageView::Block(m@),
        }
    }
}

/// The payload of a `version` message as the tuple that is encoded.
pub open spec fn version_fields(m: VersionMessageView) -> VersionFields {
    (m.from, m.version, m.height)
}

/// The payload of a `getdata` message as the tuple that is encoded.
pub open spec fn get_data_fields(m: GetDataMessageView) -> GetDataFields {
    (m.from, kind_number(m.kind), m.id)
}

/// The payload of an `inv` message as the tuple that is encoded.
pub open spec fn inventory_fields(m: InventoryMessageView) -> InventoryFields {
    (m.from, m.kind, m.items)
}

/// The payload of a `tx` message as the tuple that is encoded.
pub open spec fn tx_fields(m: TxMessageView) -> TxFields {
    (m.from, transaction_fields(m.transaction))
}

/// The payload of a `block` message as the tuple that is encoded.
pub open spec fn block_message_fields(m: BlockMessageView) -> BlockMessageFields {
    (m.from, block_fields(m.block))
}

/// The `version` message that an encoded tuple stands for.
pub open spec fn version_of_fields(fields: VersionFields) -> VersionMessageView {
    VersionMessageView { from: fields.0, version: fields.1, height: fields.2 }
}

/// The `getdata` message that an encoded tuple stands for; nothing where its
/// number stands for no kind of request.
pub open spec fn get_data_of_fields(fields: GetDataFields) -> Option<GetDataMessageView> {
    match kind_of_number(fields.1) {
        Some(kind) => Some(GetDataMessageView { from: fields.0, kind, id: fields.2 }),
        None => None,
    }
}

/// The `inv` message that an encoded tuple stands for.
pub open spec fn inventory_of_fields(fields: InventoryFields) -> InventoryMessageView {
    InventoryMessageView { from: fields.0, kind: fields.1, items: fields.2 }
}

/// The `tx` message that an encoded tuple stands for.
pub open spec fn tx_of_fields(fields: TxFields) -> TxMessageView {
    TxMessageView { from: fields.0, transaction: transaction_of_fields(fields.1) }
}

/// The `block` message that an encoded tuple stands for.
pub open spec fn block_message_of_fields(fields: BlockMessageFields) -> BlockMessageView {
    BlockMessageView { from: fields.0, block: block_of_fields(fields.1) }
}

impl VersionMessage {
    /// The payload as the tuple that is encoded.
    pub fn to_parts(&self) -> (parts: VersionParts)
        ensures
            parts.deep_view() == version_fields(self@),
    {
        (self.from.clone(), self.version, self.height)
    }

    /// The message that a decoded tuple stands for.
    pub fn from_parts(parts: &VersionParts) -> (m: VersionMessage)
        ensures
            m@ == version_of_fields(parts.deep_view()),
    {
        VersionMessage { from: parts.0.clone(), version: parts.1, height: parts.2 }
    }
}

impl GetDataMessage {
    /// The payload as the tuple that is encoded.
    pub fn to_parts(&self) -> (parts: GetDataParts)
        ensures
            parts.deep_view() == get_data_fields(self@),
    {
        (self.from.clone(), self.kind.to_number(), self.id.clone())
    }

    /// The message that a decoded tuple stands for; nothing where its number
    /// stands for no kind of request.
    pub fn from_parts(parts: &GetDataParts) -> (m: Option<GetDataMessage>)
        ensures
            match m {
                Some(m) => get_data_of_fields(parts.deep_view()) == Some(m@),
                None => get_data_of_fields(parts.deep_view()) is None,
            },
    {
        match DataRequestType::from_number(parts.1) {
            Some(kind) => Some(
                GetDataMessage { from: parts.0.clone(), kind, id: parts.2.clone() },
            ),
            None => None,
        }
    }
}

impl InventoryMessage {
    /// The payload as the tuple that is encoded.
    pub fn to_parts(&self) -> (parts: InventoryParts)
        ensures
            parts.deep_view() == inventory_fields(self@),
    {
        let parts = (self.from.clone(), self.kind.clone(), clone_strings(&self.items));
        proof {
            assert(parts.2.deep_view() =~= texts(parts.2@));
        }
        parts
    }

    /// The message that a decoded tuple stands for.
    pub fn from_parts(parts: &InventoryParts) -> (m: InventoryMessage)
        ensures
            m@ == inventory_of_fields(parts.deep_view()),
    {
        let m = InventoryMessage {
            from: parts.0.clone(),
            kind: parts.1.clone(),
            items: clone_strings(&parts.2),
        };
        proof {
            assert(parts.2.deep_view() =~= texts(parts.2@));
        }
        m
    }
}

impl TxMessage {
    /// The payload as the tuple that is encoded.
    pub fn to_parts(&self) -> (parts: TxParts)
        ensures
            parts.deep_view() == tx_fields(self@),
    {
        (self.from.clone(), self.transaction.to_parts())
    }

    /// The message that a decoded tuple stands for.
    pub fn from_parts(parts: &TxParts) -> (m: TxMessage)
        ensures
            m@ == tx_of_fields(parts.deep_view()),
    {
        TxMessage { from: parts.0.clone(), transaction: Transaction::from_parts(&parts.1) }
    }
}

impl BlockMessage {
    /// The payload as the tuple that is encoded.
    pub fn to_parts(&self) -> (parts: BlockMessageParts)
        ensures
            parts.deep_view() == block_message_fields(self@),
    {
        (self.from.clone(), self.block.to_parts())
    }

    /// The message that a decoded tuple stands for.
    pub fn from_parts(parts: &BlockMessageParts) -> (m: BlockMessage)
        ensures
            m@ == block_message_of_fields(parts.deep_view()),
    {
        BlockMessage { from: parts.0.clone(), block: Block::from_parts(&parts.1) }
    }
}

} // verus!
