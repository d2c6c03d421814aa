//! A node of the peer network: what it knows and holds.

use crate::blockchain::ChainView;
use crate::blockchain_unspent_tx::UtxoView;
use crate::constants::ADDRESS;
use crate::message::{texts, Message, MessageView};
use crate::transaction::{transactions_view, Transaction, TransactionView};
use crate::unspent_tx_util::UnspentTXUtil;
use vstd::prelude::*;
use vstd::string::StringExecFns;

verus! {

/// What a node shares between the handlers of its connections.
pub struct NetworkMetadata {
    /// Addresses of the peers known, each held once.
    pub known_nodes: Vec<String>,
    /// The chain and the index of its unspent outputs.
    pub unspent_tx: UnspentTXUtil,
    /// Hashes of the blocks still to be asked for, in order.
    pub blocks_in_transit: Vec<String>,
    /// Transactions waiting for a block, by id.
    pub mem_pool: Vec<Transaction>,
}

/// A node: its own address, the address it mines for, and its shared state.
pub struct Node {
    pub address: String,
    /// The address rewards are paid to; empty where the node does not mine.
    pub miner_address: String,
    pub metadata: NetworkMetadata,
}

/// A message to be sent to a peer.
#[derive(Debug)]
pub struct Outgoing {
    pub to: String,
    pub message: Message,
}

/// A message to be sent as contracts speak of it.
pub struct OutgoingView {
    pub to: Seq<char>,
    pub message: MessageView,
}

impl View for Outgoing {
    type V = OutgoingView;

    open spec fn view(&self) -> OutgoingView {
        OutgoingView { to: self.to@, message: self.message@ }
    }
}

/// The messages to be sent as contracts speak of them.
pub open spec fn sends_view(sends: Seq<Outgoing>) -> Seq<OutgoingView> {
    sends.map_values(|o: Outgoing| o@)
}

/// What handling a message asks of the transport, and what it did to the
/// index of unspent outputs.
#[derive(Debug)]
pub struct Reaction {
    /// The messages to send, in order.
    pub sends: Vec<Outgoing>,
    /// How often the index of unspent outputs was rebuilt.
    pub reindexes: usize,
    /// Whether a round of mining is called for next.
    pub mining: bool,
}

/// A reaction as contracts speak of it.
pub struct ReactionView {
    pub sends: Seq<OutgoingView>,
    pub reindexes: usize,
    pub mining: bool,
}

impl View for Reaction {
    type V = ReactionView;

    open spec fn view(&self) -> ReactionView {
        ReactionView {
            sends: sends_view(self.sends@),
            reindexes: self.reindexes,
            mining: self.mining,
        }
    }
}

/// What a node knows and holds, as contracts speak of it.
pub struct NodeView {
    pub address: Seq<char>,
    pub miner_address: Seq<char>,
    /// The peers known, in the order they became known.
    pub peers: Seq<Seq<char>>,
    /// The hashes still to be asked for.
    pub queue: Seq<Seq<char>>,
    /// The transactions waiting for a block.
    pub pool: Seq<TransactionView>,
    pub chain: ChainView,
    /// The unspent outputs listed in the index.
    pub entries: Seq<UtxoView>,
}

impl View for Node {
    type V = NodeView;

    open spec fn view(&self) -> NodeView {
        NodeView {
            address: self.address@,
            miner_address: self.miner_address@,
            peers: self.peers(),
            queue: self.queue(),
            pool: self.pool(),
            chain: self.chain(),
            entries: self.metadata.unspent_tx.entries(),
        }
    }
}

/// The address of the node that listens on `port` of this machine.
pub open spec fn local_address(port: Seq<char>) -> Seq<char> {
    "localhost:"@ + port
}

impl Node {
    /// The peers known, in the order they became known.
    pub open spec fn peers(&self) -> Seq<Seq<char>> {
        texts(self.metadata.known_nodes@)
    }

    /// The hashes still to be asked for.
    pub open spec fn queue(&self) -> Seq<Seq<char>> {
        texts(self.metadata.blocks_in_transit@)
    }

    /// The transactions waiting for a block.
    pub open spec fn pool(&self) -> Seq<TransactionView> {
        transactions_view(self.metadata.mem_pool@)
    }

    /// The chain the node holds.
    pub open spec fn chain(&self) -> ChainView {
        self.metadata.unspent_tx.chain@
    }

    /// A node that listens on `port` of this machine and mines for
    /// `miner_address`, or not at all where that is empty. It knows the
    /// bootstrap node, waits for no block and holds no transaction.
    pub fn new(port: &str, miner_address: &str, utxo: UnspentTXUtil) -> (node: Node)
        ensures
            node.address@ == local_address(port@),
            node.miner_address@ == miner_address@,
            node.metadata.unspent_tx == utxo,
            node.peers() == seq![ADDRESS@],
            node.queue().len() == 0,
            node.pool().len() == 0,
    {
        let mut address = String::from_str("localhost:");
        address.append(port);
        let mut known_nodes: Vec<String> = Vec::new();
        known_nodes.push(String::from_str(ADDRESS));
        let node = Node {
            address,
            miner_address: String::from_str(miner_address),
            metadata: NetworkMetadata {
                known_nodes,
                unspent_tx: utxo,
                blocks_in_transit: Vec::new(),
                mem_pool: Vec::new(),
            },
        };
        assert(node.peers() =~= seq![ADDRESS@]);
        node
    }
}

} // verus!
