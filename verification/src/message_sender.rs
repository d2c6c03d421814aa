//! The messages a node sends, as it builds them.

use crate::block::Block;
use crate::blockchain::best_height;
use crate::constants::VERSION;
use crate::message::{
    texts, BlockMessage, BlockMessageView, DataRequestType, GetBlockMessage, GetBlockMessageView,
    GetDataMessage, GetDataMessageView, InventoryMessage, InventoryMessageView, Message,
    MessageView, TxMessage, TxMessageView, VersionMessage, VersionMessageView,
};
use crate::node::{sends_view, Node, Outgoing, OutgoingView};
use crate::transaction::Transaction;
use vstd::prelude::*;
use vstd::string::StringExecFns;

verus! {

/// What sending `message` to `to` comes to for the node at `own`: nothing is
/// sent to the node itself.
pub open spec fn post(own: Seq<char>, to: Seq<char>, message: MessageView) -> Seq<OutgoingView> {
    if to == own {
        Seq::empty()
    } else {
        seq![OutgoingView { to, message }]
    }
}

impl Node {
    /// Puts `message` for `addr` behind the messages to send, unless `addr`
    /// is the node itself.
    pub fn send_data(&self, out: &mut Vec<Outgoing>, addr: &str, message: Message)
        ensures
            sends_view(final(out)@) == sends_view(old(out)@) + post(
                self.address@,
                addr@,
                message@,
            ),
    {
        let to = String::from_str(addr);
        let ghost before = sends_view(out@);
        if to == self.address {
            assert(before + Seq::<OutgoingView>::empty() =~= before);
            return;
        }
        let item = Outgoing { to, message };
        out.push(item);
        assert(sends_view(out@) =~= before + seq![item@]);
    }

    /// Hands the block `b` to `addr`.
    pub fn send_block(&self, out: &mut Vec<Outgoing>, addr: &str, b: &Block)
        ensures
            sends_view(final(out)@) == sends_view(old(out)@) + post(
                self.address@,
                addr@,
                MessageView::Block(BlockMessageView { from: self.address@, block: b@ }),
            ),
    {
        let data = BlockMessage { from: self.address.clone(), block: b.clone() };
        self.send_data(out, addr, Message::Block(data));
    }

    /// Tells `addr` the peers known.
    pub fn send_addr(&self, out: &mut Vec<Outgoing>, addr: &str)
        ensures
            sends_view(final(out)@) == sends_view(old(out)@) + post(
                self.address@,
                addr@,
                MessageView::Addr(self.peers()),
            ),
    {
        let nodes = self.get_known_nodes();
        self.send_data(out, addr, Message::Addr(nodes));
    }

    /// Announces `items` of `kind` to `addr`.
    pub fn send_inv(&self, out: &mut Vec<Outgoing>, addr: &str, kind: &str, items: Vec<String>)
        ensures
            sends_view(final(out)@) == sends_view(old(out)@) + post(
                self.address@,
                addr@,
                MessageView::Inv(
                    InventoryMessageView { from: self.address@, kind: kind@, items: texts(items@) },
                ),
            ),
    {
        let data = InventoryMessage {
            from: self.address.clone(),
            kind: String::from_str(kind),
            items,
        };
        self.send_data(out, addr, Message::Inv(data));
    }

    /// Asks `addr` for the hashes of its blocks.
    pub fn send_get_blocks(&self, out: &mut Vec<Outgoing>, addr: &str)
        ensures
            sends_view(final(out)@) == sends_view(old(out)@) + post(
                self.address@,
                addr@,
                MessageView::GetBlock(GetBlockMessageView { from: self.address@ }),
            ),
    {
        let data = GetBlockMessage { from: self.address.clone() };
        self.send_data(out, addr, Message::GetBlock(data));
    }

    /// Asks `addr` for the block or transaction `id`.
    pub fn send_get_data(&self, out: &mut Vec<Outgoing>, addr: &str, kind: DataRequestType, id: &str)
        ensures
            sends_view(final(out)@) == sends_view(old(out)@) + post(
                self.address@,
                addr@,
                MessageView::GetData(GetDataMessageView { from: self.address@, kind, id: id@ }),
            ),
    {
        let data = GetDataMessage { from: self.address.clone(), kind, id: String::from_str(id) };
        self.send_data(out, addr, Message::GetData(data));
    }

    /// Hands the transaction `tx` to `addr`.
    pub fn send_tx(&self, out: &mut Vec<Outgoing>, addr: &str, tx: &Transaction)
        ensures
            sends_view(final(out)@) == sends_view(old(out)@) + post(
                self.address@,
                addr@,
                MessageView::Tx(TxMessageView { from: self.address@, transaction: tx@ }),
            ),
    {
        let data = TxMessage { from: self.address.clone(), transaction: tx.clone() };
        self.send_data(out, addr, Message::Tx(data));
    }

    /// Tells `addr` the version spoken and the height of the chain.
    pub fn send_version(&self, out: &mut Vec<Outgoing>, addr: &str)
        ensures
            sends_view(final(out)@) == sends_view(old(out)@) + post(
                self.address@,
                addr@,
                MessageView::Version(
                    VersionMessageView {
                        from: self.address@,
                        version: VERSION as i32,
                        height: best_height(self.chain()) as i32,
                    },
                ),
            ),
    {
        let data = VersionMessage {
            from: self.address.clone(),
            height: self.get_best_height(),
            version: VERSION as i32,
        };
        self.send_data(out, addr, Message::Version(data));
    }
}

} // verus!
