//! How a node reacts to each kind of message.

use crate::address::hash_of_address;
use crate::block::{mined_from, mining_fails, unsealed, Block, BlockView};
use crate::blockchain::{
    accept, best_height, chain_of, chain_verdict, extended, find_block, next_height, ChainView,
};
use crate::blockchain_unspent_tx::{all_transactions, as_map, distinct_points, unspent_in};
use crate::clock::now_millis;
use crate::constants::{ADDRESS, VERSION};
use crate::error::LedgerError;
use crate::message::{
    texts, BlockMessage, BlockMessageView, DataRequestType, GetBlockMessage, GetBlockMessageView,
    GetDataMessage, GetDataMessageView, InventoryMessage, InventoryMessageView, Message,
    MessageView, TxMessage, TxMessageView, VersionMessage, VersionMessageView,
};
use crate::message_sender::post;
use crate::node::{sends_view, Node, NodeView, Outgoing, OutgoingView, Reaction, ReactionView};
use crate::node_util::{pool_get, pool_put, with_member, without};
use crate::parser_util::{bytes_to_cmd, parsed};
use crate::transaction::{
    clone_transactions, coinbase_for, transactions_view, Transaction, TransactionView,
};
use vstd::prelude::*;
use vstd::string::StringExecFns;

verus! {

/// What a node at `own` with the peers `peers` and a chain of height `best`
/// answers to a `version` message: a request for blocks where the sender is
/// ahead, its own version where the sender is behind, and in any case the
/// peers it knows.
pub open spec fn version_replies(
    own: Seq<char>,
    peers: Seq<Seq<char>>,
    best: int,
    msg: VersionMessageView,
) -> Seq<OutgoingView> {
    let first = if best < msg.height {
        post(own, msg.from, MessageView::GetBlock(GetBlockMessageView { from: own }))
    } else if best > msg.height {
        post(
            own,
            msg.from,
            MessageView::Version(
                VersionMessageView { from: own, version: VERSION as i32, height: best as i32 },
            ),
        )
    } else {
        Seq::empty()
    };
    first + post(own, msg.from, MessageView::Addr(peers))
}

/// `list` with the first `k` of `more` taken note of, one after the other.
pub open spec fn with_members(list: Seq<Seq<char>>, more: Seq<Seq<char>>, k: nat) -> Seq<Seq<char>>
    decreases k,
{
    if k == 0 {
        list
    } else {
        with_member(with_members(list, more, (k - 1) as nat), more[k - 1])
    }
}

/// The hashes of `blocks`, in order.
pub open spec fn hashes_of(blocks: Seq<BlockView>) -> Seq<Seq<char>> {
    blocks.map_values(|b: BlockView| b.hash)
}

/// The request for the block or transaction `id` that the node at `own`
/// sends to `to`.
pub open spec fn request(own: Seq<char>, to: Seq<char>, kind: DataRequestType, id: Seq<char>) -> Seq<
    OutgoingView,
> {
    post(own, to, MessageView::GetData(GetDataMessageView { from: own, kind, id }))
}

/// What a node answers to an inventory. Of blocks it asks for the first and
/// queues the others; of transactions it asks for the first unless its
/// mempool holds it under a proper id. An inventory that announces nothing is
/// refused.
pub open spec fn inventory_outcome(node: NodeView, msg: InventoryMessageView) -> Result<
    (Seq<OutgoingView>, Seq<Seq<char>>),
    LedgerError,
> {
    if msg.kind == "block"@ {
        if msg.items.len() == 0 {
            Err(LedgerError::EmptyInventory)
        } else {
            Ok(
                (
                    request(node.address, msg.from, DataRequestType::Block, msg.items[0]),
                    without(msg.items, msg.items[0]),
                ),
            )
        }
    } else if msg.kind == "tx"@ {
        if msg.items.len() == 0 {
            Err(LedgerError::EmptyInventory)
        } else {
            let wanted = match pool_get(node.pool, msg.items[0]) {
                Some(tx) => tx.id.len() == 0,
                None => true,
            };
            Ok(
                (
                    if wanted {
                        request(node.address, msg.from, DataRequestType::TX, msg.items[0])
                    } else {
                        Seq::empty()
                    },
                    node.queue,
                ),
            )
        }
    } else {
        Ok((Seq::empty(), node.queue))
    }
}

/// What a node answers to a request for data: the block or the transaction
/// asked for, where it holds it.
pub open spec fn data_outcome(node: NodeView, msg: GetDataMessageView) -> Result<
    Seq<OutgoingView>,
    LedgerError,
> {
    match msg.kind {
        DataRequestType::Block => match find_block(node.chain.blocks, msg.id) {
            Some(block) => Ok(
                post(
                    node.address,
                    msg.from,
                    MessageView::Block(BlockMessageView { from: node.address, block }),
                ),
            ),
            None => Err(LedgerError::BlockNotFound),
        },
        DataRequestType::TX => match pool_get(node.pool, msg.id) {
            Some(transaction) => Ok(
                post(
                    node.address,
                    msg.from,
                    MessageView::Tx(TxMessageView { from: node.address, transaction }),
                ),
            ),
            None => Err(LedgerError::TransactionNotFound),
        },
        DataRequestType::Data => Ok(Seq::empty()),
    }
}

/// How a `version` message is handled: the node answers as
/// [`version_replies`] says and takes note of the sender.
pub open spec fn version_handled(
    before: NodeView,
    msg: VersionMessageView,
    after: NodeView,
    reaction: ReactionView,
) -> bool {
    let sends = reaction.sends;
    let reindexes = reaction.reindexes;
    &&& !reaction.mining
    &&& sends == version_replies(before.address, before.peers, best_height(before.chain), msg)
    &&& reindexes == 0
    &&& after == (NodeView { peers: with_member(before.peers, msg.from), ..before })
}

/// How an `addr` message is handled: the node takes note of every peer in
/// it and sends nothing.
pub open spec fn addr_handled(
    before: NodeView,
    msg: Seq<Seq<char>>,
    after: NodeView,
    reaction: ReactionView,
) -> bool {
    let sends = reaction.sends;
    let reindexes = reaction.reindexes;
    &&& !reaction.mining
    &&& sends.len() == 0
    &&& reindexes == 0
    &&& after == (NodeView { peers: with_members(before.peers, msg, msg.len()), ..before })
}

/// How a `block` message is handled: the block is offered to the chain;
/// then the sender is asked for the next block of the queue, or, where none
/// is queued, the index of unspent outputs is rebuilt once.
pub open spec fn block_handled(
    before: NodeView,
    msg: BlockMessageView,
    after: NodeView,
    reaction: ReactionView,
) -> bool {
    let sends = reaction.sends;
    let reindexes = reaction.reindexes;
    &&& !reaction.mining
    &&& after.chain == accept(before.chain, msg.block)
    &&& after == (NodeView {
        chain: after.chain,
        queue: after.queue,
        entries: after.entries,
        ..before
    })
    &&& before.queue.len() > 0 ==> {
        &&& sends == request(before.address, msg.from, DataRequestType::Block, before.queue[0])
        &&& after.queue == before.queue.drop_first()
        &&& after.entries == before.entries
        &&& reindexes == 0
    }
    &&& before.queue.len() == 0 ==> {
        &&& sends.len() == 0
        &&& after.queue.len() == 0
        &&& distinct_points(after.entries)
        &&& as_map(after.entries) == unspent_in(
            all_transactions(chain_of(after.chain).reverse()),
        )
        &&& reindexes == 1
    }
}

/// How an `inv` message is handled: as [`inventory_outcome`] says; where
/// the inventory is refused the node is left as it was.
pub open spec fn inv_handled(
    before: NodeView,
    msg: InventoryMessageView,
    after: NodeView,
    reaction: Result<ReactionView, LedgerError>,
) -> bool {
    match reaction {
        Ok(r) => inventory_outcome(before, msg) == Ok::<
            (Seq<OutgoingView>, Seq<Seq<char>>),
            LedgerError,
        >((r.sends, after.queue)) && r.reindexes == 0 && !r.mining && after == (NodeView {
            queue: after.queue,
            ..before
        }),
        Err(e) => inventory_outcome(before, msg) == Err::<
            (Seq<OutgoingView>, Seq<Seq<char>>),
            LedgerError,
        >(e) && after == before,
    }
}

/// How a `getblocks` message is handled: the node answers with an inventory
/// of every block of its chain, head first.
pub open spec fn get_blocks_handled(
    node: NodeView,
    msg: GetBlockMessageView,
    reaction: ReactionView,
) -> bool {
    let sends = reaction.sends;
    let reindexes = reaction.reindexes;
    &&& !reaction.mining
    &&& sends == post(
        node.address,
        msg.from,
        MessageView::Inv(
            InventoryMessageView {
                from: node.address,
                kind: "block"@,
                items: hashes_of(chain_of(node.chain)),
            },
        ),
    )
    &&& reindexes == 0
}

/// How a `getdata` message is handled: as [`data_outcome`] says.
pub open spec fn get_data_handled(
    node: NodeView,
    msg: GetDataMessageView,
    reaction: Result<ReactionView, LedgerError>,
) -> bool {
    match reaction {
        Ok(r) => data_outcome(node, msg) == Ok::<Seq<OutgoingView>, LedgerError>(r.sends)
            && r.reindexes == 0 && !r.mining,
        Err(e) => data_outcome(node, msg) == Err::<Seq<OutgoingView>, LedgerError>(e),
    }
}

/// The outcome of handling a message as contracts speak of it.
pub open spec fn reaction_view(reaction: Result<Reaction, LedgerError>) -> Result<
    ReactionView,
    LedgerError,
> {
    match reaction {
        Ok(r) => Ok(r@),
        Err(e) => Err(e),
    }
}

/// `message` for every one of `peers` other than the node at `own` and the
/// peer `other`, in the order of `peers`.
pub open spec fn fan_out(
    peers: Seq<Seq<char>>,
    own: Seq<char>,
    other: Seq<char>,
    message: MessageView,
) -> Seq<OutgoingView>
    decreases peers.len(),
{
    if peers.len() == 0 {
        Seq::empty()
    } else if peers.last() != own && peers.last() != other {
        fan_out(peers.drop_last(), own, other, message).push(
            OutgoingView { to: peers.last(), message },
        )
    } else {
        fan_out(peers.drop_last(), own, other, message)
    }
}

/// The inventory by which the node at `own` announces the one item `id` of
/// `kind`.
pub open spec fn announcement(own: Seq<char>, kind: Seq<char>, id: Seq<char>) -> MessageView {
    MessageView::Inv(InventoryMessageView { from: own, kind, items: seq![id] })
}

/// The transactions of `pool` that verify against the chain, in order; the
/// error of the first whose verification fails with one.
pub open spec fn verified_of(c: ChainView, pool: Seq<TransactionView>) -> Result<
    Seq<TransactionView>,
    LedgerError,
>
    decreases pool.len(),
{
    if pool.len() == 0 {
        Ok(Seq::empty())
    } else {
        match verified_of(c, pool.drop_last()) {
            Err(e) => Err(e),
            Ok(before) => match chain_verdict(c, pool.last()) {
                Err(e) => Err(e),
                Ok(true) => Ok(before.push(pool.last())),
                Ok(false) => Ok(before),
            },
        }
    }
}

/// Some transaction of `txs` carries `id`.
pub open spec fn carries_id(txs: Seq<TransactionView>, id: Seq<char>) -> bool {
    exists|k: int| 0 <= k < txs.len() && (#[trigger] txs[k]).id == id
}

/// The transactions of `pool` whose id none of `mined` carries, in order.
pub open spec fn pool_without(pool: Seq<TransactionView>, mined: Seq<TransactionView>) -> Seq<
    TransactionView,
>
    decreases pool.len(),
{
    if pool.len() == 0 {
        Seq::empty()
    } else if carries_id(mined, pool.last().id) {
        pool_without(pool.drop_last(), mined)
    } else {
        pool_without(pool.drop_last(), mined).push(pool.last())
    }
}

/// The transactions that the next block of a mining node is to hold: those
/// of the mempool that verify, then a coinbase for the miner. No block is
/// called for where none verifies.
pub open spec fn block_contents(node: NodeView) -> Result<Option<Seq<TransactionView>>, LedgerError> {
    match verified_of(node.chain, node.pool) {
        Err(e) => Err(e),
        Ok(valid) => if valid.len() == 0 {
            Ok(None)
        } else {
            match coinbase_for(node.miner_address, Seq::empty()) {
                Some(coinbase) => Ok(Some(valid.push(coinbase))),
                None => Err(
                    if hash_of_address(node.miner_address) is None {
                        LedgerError::InvalidAddress
                    } else {
                        LedgerError::Encoding
                    },
                ),
            }
        },
    }
}

/// One round of mining at `timestamp`, from `before` to `after`. Where
/// [`block_contents`] calls for a block it is mined on top of the head, the
/// index of unspent outputs is rebuilt and the mined transactions leave the
/// mempool. Where it calls for none, or the round fails, the node is left as
/// it was.
pub open spec fn round_done(
    before: NodeView,
    timestamp: u128,
    after: NodeView,
    outcome: Result<Option<BlockView>, LedgerError>,
) -> bool {
    match block_contents(before) {
        Err(e) => outcome == Err::<Option<BlockView>, LedgerError>(e) && after == before,
        Ok(None) => outcome == Ok::<Option<BlockView>, LedgerError>(None) && after == before,
        Ok(Some(txs)) => match outcome {
            Ok(Some(block)) => {
                &&& next_height(before.chain, txs) is Ok
                &&& mined_from(
                    block,
                    txs,
                    before.chain.head,
                    next_height(before.chain, txs).unwrap(),
                    timestamp,
                )
                &&& after.chain == extended(before.chain, block)
                &&& after.pool == pool_without(before.pool, txs)
                &&& after.pool.len() < before.pool.len()
                &&& distinct_points(after.entries)
                &&& as_map(after.entries) == unspent_in(
                    all_transactions(chain_of(after.chain).reverse()),
                )
                &&& after == (NodeView {
                    chain: after.chain,
                    pool: after.pool,
                    entries: after.entries,
                    ..before
                })
            },
            Ok(None) => false,
            Err(e) => {
                &&& after == before
                &&& match next_height(before.chain, txs) {
                    Err(refusal) => e == refusal,
                    Ok(height) => mining_fails(
                        unsealed(txs, before.chain.head, height, timestamp),
                        e,
                    ),
                }
            },
        },
    }
}

/// The block of a round, as contracts speak of it.
pub open spec fn round_view(outcome: Result<Option<Block>, LedgerError>) -> Result<
    Option<BlockView>,
    LedgerError,
> {
    match outcome {
        Ok(Some(block)) => Ok(Some(block@)),
        Ok(None) => Ok(None),
        Err(e) => Err(e),
    }
}

/// One step of a mining node at `timestamp`, from `before` to `after`: a
/// round of mining as [`round_done`] defines it; the block it mines, if any,
/// is announced to every peer, and another round is called for where a block
/// was mined and the mempool still holds transactions.
pub open spec fn step_done(
    before: NodeView,
    timestamp: u128,
    after: NodeView,
    outcome: Result<ReactionView, LedgerError>,
) -> bool {
    match outcome {
        Err(e) => round_done(before, timestamp, after, Err(e)),
        Ok(r) => if r.reindexes == 0 {
            &&& round_done(before, timestamp, after, Ok(None))
            &&& r.sends.len() == 0
            &&& !r.mining
        } else {
            exists|block: BlockView|
                {
                    &&& #[trigger] round_done(before, timestamp, after, Ok(Some(block)))
                    &&& r.sends == fan_out(
                        before.peers,
                        before.address,
                        before.address,
                        announcement(before.address, "block"@, block.hash),
                    )
                    &&& r.reindexes == 1
                    &&& r.mining == (after.pool.len() > 0)
                }
        },
    }
}

/// How a `tx` message is handled. The transaction enters the mempool. The
/// bootstrap node announces it to every peer but the sender. Any other node
/// calls for mining where it has an address to mine for.
pub open spec fn tx_handled(
    before: NodeView,
    msg: TxMessageView,
    after: NodeView,
    reaction: ReactionView,
) -> bool {
    &&& after == (NodeView { pool: pool_put(before.pool, msg.transaction), ..before })
    &&& reaction.reindexes == 0
    &&& if before.address == ADDRESS@ {
        &&& reaction.sends == fan_out(
            before.peers,
            before.address,
            msg.from,
            announcement(before.address, "tx"@, msg.transaction.id),
        )
        &&& !reaction.mining
    } else {
        &&& reaction.sends.len() == 0
        &&& reaction.mining == (after.pool.len() >= 1 && before.miner_address.len() > 0)
    }
}

/// How a message is handled, by its kind.
pub open spec fn message_handled(
    before: NodeView,
    msg: MessageView,
    after: NodeView,
    reaction: Result<ReactionView, LedgerError>,
) -> bool {
    match msg {
        MessageView::Addr(peers) => reaction matches Ok(r) && addr_handled(before, peers, after, r),
        MessageView::Block(m) => reaction matches Ok(r) && block_handled(before, m, after, r),
        MessageView::Inv(m) => inv_handled(before, m, after, reaction),
        MessageView::GetBlock(m) => reaction matches Ok(r) && after == before
            && get_blocks_handled(before, m, r),
        MessageView::GetData(m) => after == before && get_data_handled(before, m, reaction),
        MessageView::Tx(m) => reaction matches Ok(r) && tx_handled(before, m, after, r),
        MessageView::Version(m) => reaction matches Ok(r) && version_handled(before, m, after, r),
    }
}

/// Whatever verifies is a transaction of the pool.
pub proof fn lemma_verified_in_pool(c: ChainView, pool: Seq<TransactionView>, k: int)
    requires
        verified_of(c, pool) is Ok,
        0 <= k < verified_of(c, pool).unwrap().len(),
    ensures
        exists|i: int| 0 <= i < pool.len() && #[trigger] pool[i] == verified_of(c, pool).unwrap()[k],
    decreases pool.len(),
{
    if pool.len() > 0 {
        let front = pool.drop_last();
        let before = verified_of(c, front).unwrap();
        if k < before.len() {
            lemma_verified_in_pool(c, front, k);
            let i = choose|i: int| 0 <= i < front.len() && #[trigger] front[i] == before[k];
            assert(pool[i] == front[i]);
        } else {
            assert(pool[pool.len() - 1] == verified_of(c, pool).unwrap()[k]);
        }
    }
}

/// Taking mined transactions out of a pool never makes it longer, and makes
/// it shorter where one of its transactions was mined.
pub proof fn lemma_pool_shrinks(pool: Seq<TransactionView>, mined: Seq<TransactionView>)
    ensures
        pool_without(pool, mined).len() <= pool.len(),
        (exists|i: int| 0 <= i < pool.len() && carries_id(mined, (#[trigger] pool[i]).id))
            ==> pool_without(pool, mined).len() < pool.len(),
    decreases pool.len(),
{
    if pool.len() > 0 {
        let front = pool.drop_last();
        lemma_pool_shrinks(front, mined);
        if exists|i: int| 0 <= i < pool.len() && carries_id(mined, (#[trigger] pool[i]).id) {
            let i = choose|i: int| 0 <= i < pool.len() && carries_id(mined, (#[trigger] pool[i]).id);
            if i < pool.len() - 1 {
                assert(front[i] == pool[i]);
            }
        }
    }
}

/// `list` without every occurrence of `text`, as a fresh vector.
pub fn strings_without(list: &Vec<String>, text: &String) -> (rest: Vec<String>)
    ensures
        texts(rest@) == without(texts(list@), text@),
{
    let ghost all = texts(list@);
    let mut rest: Vec<String> = Vec::new();
    let mut i: usize = 0;
    while i < list.len()
        invariant
            i <= list@.len(),
            all == texts(list@),
            texts(rest@) == without(all.take(i as int), text@),
        decreases list@.len() - i,
    {
        proof {
            assert(all.take(i + 1).drop_last() =~= all.take(i as int));
            assert(all.take(i + 1).last() == list@[i as int]@);
        }
        if !(list[i] == *text) {
            let ghost before = texts(rest@);
            rest.push(list[i].clone());
            assert(texts(rest@) =~= before.push(list@[i as int]@));
        }
        i = i + 1;
    }
    proof {
        assert(all.take(all.len() as int) =~= all);
    }
    rest
}

impl Node {
    /// Reacts to a `version` message, as [`version_replies`] defines it, and
    /// takes note of the sender.
    pub fn handle_version(&mut self, msg: VersionMessage) -> (reaction: Reaction)
        ensures
            version_handled(old(self)@, msg@, final(self)@, reaction@),
    {
        let mut sends: Vec<Outgoing> = Vec::new();
        assert(sends_view(sends@) =~= Seq::<OutgoingView>::empty());
        let my_best_height = self.get_best_height();
        if my_best_height < msg.height {
            self.send_get_blocks(&mut sends, msg.from.as_str());
        } else if my_best_height > msg.height {
            self.send_version(&mut sends, msg.from.as_str());
        }
        let ghost first = sends_view(sends@);
        self.send_addr(&mut sends, msg.from.as_str());
        proof {
            assert(Seq::<OutgoingView>::empty() + first =~= first);
        }
        if !self.node_is_known(msg.from.as_str()) {
            self.add_nodes(msg.from.as_str());
        }
        Reaction { sends, reindexes: 0, mining: false }
    }

    /// Takes note of every peer of an `addr` message.
    pub fn handle_addr(&mut self, msg: Vec<String>) -> (reaction: Reaction)
        ensures
            addr_handled(old(self)@, texts(msg@), final(self)@, reaction@),
    {
        let mut i: usize = 0;
        while i < msg.len()
            invariant
                i <= msg@.len(),
                self@ == (NodeView {
                    peers: with_members(old(self)@.peers, texts(msg@), i as nat),
                    ..old(self)@
                }),
            decreases msg@.len() - i,
        {
            self.add_nodes(msg[i].as_str());
            i = i + 1;
        }
        let sends: Vec<Outgoing> = Vec::new();
        assert(sends_view(sends@).len() == 0);
        Reaction { sends, reindexes: 0, mining: false }
    }

    /// Reacts to a block: offers it to the chain; then asks the sender for
    /// the next block of the queue, or, where none is queued, rebuilds the
    /// index of unspent outputs, the download being over.
    pub fn handle_block(&mut self, msg: BlockMessage) -> (reaction: Reaction)
        ensures
            block_handled(old(self)@, msg@, final(self)@, reaction@),
    {
        let BlockMessage { from, block } = msg;
        self.add_block(block);
        let mut sends: Vec<Outgoing> = Vec::new();
        assert(sends_view(sends@) =~= Seq::<OutgoingView>::empty());
        let mut in_transit = self.get_in_transit();
        if in_transit.len() > 0 {
            let ghost before = texts(in_transit@);
            self.send_get_data(
                &mut sends,
                from.as_str(),
                DataRequestType::Block,
                in_transit[0].as_str(),
            );
            let first = in_transit.remove(0);
            assert(texts(in_transit@) =~= before.drop_first());
            self.replace_in_transit(in_transit);
            proof {
                let asked = request(
                    old(self)@.address,
                    from@,
                    DataRequestType::Block,
                    old(self)@.queue[0],
                );
                assert(Seq::<OutgoingView>::empty() + asked =~= asked);
            }
            Reaction { sends, reindexes: 0, mining: false }
        } else {
            self.utxo_reindex();
            assert(sends_view(sends@).len() == 0);
            Reaction { sends, reindexes: 1, mining: false }
        }
    }

    /// Reacts to an inventory, as [`inventory_outcome`] defines it. Where it
    /// is refused the node is left as it was.
    pub fn handle_inv(&mut self, msg: InventoryMessage) -> (reaction: Result<Reaction, LedgerError>)
        ensures
            inv_handled(old(self)@, msg@, final(self)@, reaction_view(reaction)),
    {
        let mut sends: Vec<Outgoing> = Vec::new();
        assert(sends_view(sends@) =~= Seq::<OutgoingView>::empty());
        if msg.kind == String::from_str("block") {
            if msg.items.len() == 0 {
                return Err(LedgerError::EmptyInventory);
            }
            let block_hash = &msg.items[0];
            self.send_get_data(
                &mut sends,
                msg.from.as_str(),
                DataRequestType::Block,
                block_hash.as_str(),
            );
            let new_in_transit = strings_without(&msg.items, block_hash);
            self.replace_in_transit(new_in_transit);
            proof {
                let asked = request(
                    old(self)@.address,
                    msg@.from,
                    DataRequestType::Block,
                    msg@.items[0],
                );
                assert(Seq::<OutgoingView>::empty() + asked =~= asked);
            }
        } else if msg.kind == String::from_str("tx") {
            if msg.items.len() == 0 {
                return Err(LedgerError::EmptyInventory);
            }
            let txid = &msg.items[0];
            let wanted = match self.get_mempool_tx(txid.as_str()) {
                Some(tx) => tx.id.as_str().is_empty(),
                None => true,
            };
            if wanted {
                self.send_get_data(
                    &mut sends,
                    msg.from.as_str(),
                    DataRequestType::TX,
                    txid.as_str(),
                );
                proof {
                    let asked = request(
                        old(self)@.address,
                        msg@.from,
                        DataRequestType::TX,
                        msg@.items[0],
                    );
                    assert(Seq::<OutgoingView>::empty() + asked =~= asked);
                }
            }
        }
        Ok(Reaction { sends, reindexes: 0, mining: false })
    }

    /// Answers a request for block hashes with an inventory of every block
    /// of the chain, head first.
    pub fn handle_get_blocks(&self, msg: GetBlockMessage) -> (reaction: Reaction)
        ensures
            get_blocks_handled(self@, msg@, reaction@),
    {
        let mut sends: Vec<Outgoing> = Vec::new();
        assert(sends_view(sends@) =~= Seq::<OutgoingView>::empty());
        let block_hashs = self.get_block_hashs();
        assert(texts(block_hashs@) =~= hashes_of(chain_of(self@.chain)));
        self.send_inv(&mut sends, msg.from.as_str(), "block", block_hashs);
        proof {
            let told = sends_view(sends@);
            assert(Seq::<OutgoingView>::empty() + told =~= told);
        }
        Reaction { sends, reindexes: 0, mining: false }
    }

    /// Answers a request for data, as [`data_outcome`] defines it.
    pub fn handle_get_data(&self, msg: GetDataMessage) -> (reaction: Result<Reaction, LedgerError>)
        ensures
            get_data_handled(self@, msg@, reaction_view(reaction)),
    {
        let mut sends: Vec<Outgoing> = Vec::new();
        assert(sends_view(sends@) =~= Seq::<OutgoingView>::empty());
        match msg.kind {
            DataRequestType::Block => {
                let block = match self.get_block(msg.id.as_str()) {
                    Ok(block) => block,
                    Err(e) => {
                        return Err(e);
                    },
                };
                self.send_block(&mut sends, msg.from.as_str(), &block);
            },
            DataRequestType::TX => {
                let tx = match self.get_mempool_tx(msg.id.as_str()) {
                    Some(tx) => tx,
                    None => {
                        return Err(LedgerError::TransactionNotFound);
                    },
                };
                self.send_tx(&mut sends, msg.from.as_str(), &tx);
            },
            DataRequestType::Data => {},
        }
        proof {
            let told = sends_view(sends@);
            assert(Seq::<OutgoingView>::empty() + told =~= told);
        }
        Ok(Reaction { sends, reindexes: 0, mining: false })
    }
    /// The transactions of the mempool that verify against the chain, in
    /// order; the error of the first whose verification fails with one.
    pub fn verified_mempool(&self) -> (valid: Result<Vec<Transaction>, LedgerError>)
        ensures
            match valid {
                Ok(txs) => verified_of(self@.chain, self@.pool) == Ok::<
                    Seq<TransactionView>,
                    LedgerError,
                >(transactions_view(txs@)),
                Err(e) => verified_of(self@.chain, self@.pool) == Err::<
                    Seq<TransactionView>,
                    LedgerError,
                >(e),
            },
    {
        let ghost pool = self@.pool;
        let mut txs: Vec<Transaction> = Vec::new();
        let mut i: usize = 0;
        proof {
            assert(pool.take(0) =~= Seq::<TransactionView>::empty());
            assert(transactions_view(txs@) =~= Seq::<TransactionView>::empty());
        }
        while i < self.metadata.mem_pool.len()
            invariant
                i <= self.metadata.mem_pool@.len(),
                pool == self@.pool,
                verified_of(self@.chain, pool.take(i as int)) == Ok::<
                    Seq<TransactionView>,
                    LedgerError,
                >(transactions_view(txs@)),
            decreases self.metadata.mem_pool@.len() - i,
        {
            let tx = &self.metadata.mem_pool[i];
            proof {
                assert(pool.take(i + 1).drop_last() =~= pool.take(i as int));
                assert(pool.take(i + 1).last() == tx@);
            }
            match self.verify_tx(tx) {
                Err(e) => {
                    proof {
                        assert(verified_of(self@.chain, pool.take(i + 1)) == Err::<
                            Seq<TransactionView>,
                            LedgerError,
                        >(e));
                        lemma_verifying_stays_failed(self@.chain, pool, i + 1, pool.len() as int);
                        assert(pool.take(pool.len() as int) =~= pool);
                    }
                    return Err(e);
                },
                Ok(true) => {
                    let ghost before = transactions_view(txs@);
                    txs.push(tx.clone());
                    assert(transactions_view(txs@) =~= before.push(tx@));
                },
                Ok(false) => {},
            }
            i = i + 1;
        }
        proof {
            assert(pool.take(pool.len() as int) =~= pool);
        }
        Ok(txs)
    }

    /// The transactions of the mempool whose id none of `mined` carries.
    pub fn mempool_without(&self, mined: &Vec<Transaction>) -> (rest: Vec<Transaction>)
        ensures
            transactions_view(rest@) == pool_without(self@.pool, transactions_view(mined@)),
    {
        let ghost pool = self@.pool;
        let ghost gone = transactions_view(mined@);
        let mut rest: Vec<Transaction> = Vec::new();
        let mut i: usize = 0;
        proof {
            assert(pool.take(0) =~= Seq::<TransactionView>::empty());
            assert(transactions_view(rest@) =~= Seq::<TransactionView>::empty());
        }
        while i < self.metadata.mem_pool.len()
            invariant
                i <= self.metadata.mem_pool@.len(),
                pool == self@.pool,
                gone == transactions_view(mined@),
                transactions_view(rest@) == pool_without(pool.take(i as int), gone),
            decreases self.metadata.mem_pool@.len() - i,
        {
            let tx = &self.metadata.mem_pool[i];
            proof {
                assert(pool.take(i + 1).drop_last() =~= pool.take(i as int));
                assert(pool.take(i + 1).last() == tx@);
            }
            let mut mined_here: bool = false;
            let mut k: usize = 0;
            while k < mined.len() && !mined_here
                invariant
                    k <= mined@.len(),
                    gone == transactions_view(mined@),
                    mined_here ==> carries_id(gone, tx@.id),
                    !mined_here ==> forall|m: int| 0 <= m < k ==> (#[trigger] gone[m]).id != tx@.id,
                decreases mined@.len() - k + if mined_here { 0int } else { 1int },
            {
                if mined[k].id == tx.id {
                    assert(gone[k as int].id == tx@.id);
                    mined_here = true;
                } else {
                    k = k + 1;
                }
            }
            if !mined_here {
                let ghost before = transactions_view(rest@);
                rest.push(tx.clone());
                assert(transactions_view(rest@) =~= before.push(tx@));
            }
            i = i + 1;
        }
        proof {
            assert(pool.take(pool.len() as int) =~= pool);
        }
        rest
    }

    /// One round of mining, stamped with `timestamp`, as [`round_done`]
    /// defines it.
    pub fn mine_round_at(&mut self, timestamp: u128) -> (outcome: Result<Option<Block>, LedgerError>)
        ensures
            round_done(old(self)@, timestamp, final(self)@, round_view(outcome)),
    {
        let mut txs = match self.verified_mempool() {
            Ok(txs) => txs,
            Err(e) => {
                return Err(e);
            },
        };
        if txs.len() == 0 {
            return Ok(None);
        }
        let ghost valid = transactions_view(txs@);
        let cbtx = match Transaction::new_coinbase(self.miner_address.clone(), String::new()) {
            Ok(tx) => tx,
            Err(e) => {
                return Err(e);
            },
        };
        txs.push(cbtx);
        assert(transactions_view(txs@) =~= valid.push(cbtx@));
        let rest = self.mempool_without(&txs);
        proof {
            let all = transactions_view(txs@);
            lemma_verified_in_pool(self@.chain, self@.pool, 0);
            let i = choose|i: int| 0 <= i < self@.pool.len() && #[trigger] self@.pool[i] == valid[0];
            assert(all[0] == valid[0]);
            assert(carries_id(all, self@.pool[i].id));
            lemma_pool_shrinks(self@.pool, all);
        }
        let block = match self.metadata.unspent_tx.chain.mine_block_at(
            clone_transactions(&txs),
            timestamp,
        ) {
            Ok(block) => block,
            Err(e) => {
                return Err(e);
            },
        };
        self.metadata.mem_pool = rest;
        self.utxo_reindex();
        Ok(Some(block))
    }

    /// Puts the announcement of the one item `id` of `kind` behind the
    /// messages to send: one for every peer known other than `other`.
    pub fn announce(&self, out: &mut Vec<Outgoing>, other: &str, kind: &str, id: &String)
        ensures
            sends_view(final(out)@) == sends_view(old(out)@) + fan_out(
                self@.peers,
                self@.address,
                other@,
                announcement(self@.address, kind@, id@),
            ),
    {
        let ghost start = sends_view(out@);
        let ghost peers = self@.peers;
        let ghost message = announcement(self@.address, kind@, id@);
        let skipped = String::from_str(other);
        let mut i: usize = 0;
        proof {
            assert(start + Seq::<OutgoingView>::empty() =~= start);
        }
        while i < self.metadata.known_nodes.len()
            invariant
                i <= self.metadata.known_nodes@.len(),
                peers == self@.peers,
                skipped@ == other@,
                message == announcement(self@.address, kind@, id@),
                sends_view(out@) == start + fan_out(
                    peers.take(i as int),
                    self@.address,
                    other@,
                    message,
                ),
            decreases self.metadata.known_nodes@.len() - i,
        {
            let node = &self.metadata.known_nodes[i];
            proof {
                assert(peers.take(i + 1).drop_last() =~= peers.take(i as int));
                assert(peers.take(i + 1).last() == node@);
            }
            if !(*node == self.address) && !(*node == skipped) {
                let mut items: Vec<String> = Vec::new();
                items.push(id.clone());
                assert(texts(items@) =~= seq![id@]);
                let ghost before = sends_view(out@);
                self.send_inv(out, node.as_str(), kind, items);
                proof {
                    let so_far = fan_out(peers.take(i as int), self@.address, other@, message);
                    let one = OutgoingView { to: node@, message };
                    assert(post(self@.address, node@, message) =~= seq![one]);
                    assert(sends_view(out@) =~= start + so_far.push(one));
                }
            }
            i = i + 1;
        }
        proof {
            assert(peers.take(peers.len() as int) =~= peers);
        }
    }

    /// Reacts to a transaction, as [`tx_handled`] defines it.
    pub fn handle_tx(&mut self, msg: TxMessage) -> (reaction: Reaction)
        ensures
            tx_handled(old(self)@, msg@, final(self)@, reaction@),
    {
        let TxMessage { from, transaction } = msg;
        let txid = transaction.id.clone();
        self.insert_mempool(transaction);
        let mut sends: Vec<Outgoing> = Vec::new();
        assert(sends_view(sends@) =~= Seq::<OutgoingView>::empty());
        if self.address == String::from_str(ADDRESS) {
            self.announce(&mut sends, from.as_str(), "tx", &txid);
            proof {
                let told = sends_view(sends@);
                assert(Seq::<OutgoingView>::empty() + told =~= told);
            }
            return Reaction { sends, reindexes: 0, mining: false };
        }
        let mining = self.metadata.mem_pool.len() >= 1 && !self.miner_address.as_str().is_empty();
        Reaction { sends, reindexes: 0, mining }
    }

    /// One step of a mining node, stamped with `timestamp`, as [`step_done`]
    /// defines it.
    pub fn mining_step_at(&mut self, timestamp: u128) -> (reaction: Result<Reaction, LedgerError>)
        ensures
            step_done(old(self)@, timestamp, final(self)@, reaction_view(reaction)),
    {
        let mut sends: Vec<Outgoing> = Vec::new();
        assert(sends_view(sends@) =~= Seq::<OutgoingView>::empty());
        match self.mine_round_at(timestamp) {
            Err(e) => Err(e),
            Ok(None) => Ok(Reaction { sends, reindexes: 0, mining: false }),
            Ok(Some(block)) => {
                let hash = block.get_hash();
                self.announce(&mut sends, self.address.as_str(), "block", &hash);
                proof {
                    let told = sends_view(sends@);
                    assert(Seq::<OutgoingView>::empty() + told =~= told);
                    assert(round_done(old(self)@, timestamp, self@, Ok(Some(block@))));
                }
                let mining = self.metadata.mem_pool.len() > 0;
                Ok(Reaction { sends, reindexes: 1, mining })
            },
        }
    }

    /// One step of a mining node, stamped with the time the clock gives, as
    /// [`Node::mining_step_at`] does it with that time. Fails with `Clock`,
    /// and leaves the node as it was, where the clock stands before the
    /// epoch.
    pub fn mining_step(&mut self) -> (reaction: Result<Reaction, LedgerError>)
        ensures
            (reaction_view(reaction) == Err::<ReactionView, LedgerError>(LedgerError::Clock)
                && final(self)@ == old(self)@) || exists|timestamp: u128|
                #[trigger] step_done(old(self)@, timestamp, final(self)@, reaction_view(reaction)),
    {
        match now_millis() {
            None => Err(LedgerError::Clock),
            Some(timestamp) => self.mining_step_at(timestamp),
        }
    }

    /// Reacts to a message, by its kind.
    pub fn handle_message(&mut self, msg: Message) -> (reaction: Result<Reaction, LedgerError>)
        ensures
            message_handled(old(self)@, msg@, final(self)@, reaction_view(reaction)),
    {
        match msg {
            Message::Addr(data) => Ok(self.handle_addr(data)),
            Message::Block(data) => Ok(self.handle_block(data)),
            Message::Inv(data) => self.handle_inv(data),
            Message::GetBlock(data) => Ok(self.handle_get_blocks(data)),
            Message::GetData(data) => self.handle_get_data(data),
            Message::Tx(data) => Ok(self.handle_tx(data)),
            Message::Version(data) => Ok(self.handle_version(data)),
        }
    }

    /// Reacts to what a connection delivered: reads the bytes as a message
    /// and handles it. Bytes that are no message leave the node as it was.
    pub fn handle_connection(&mut self, bytes: &[u8]) -> (reaction: Result<Reaction, LedgerError>)
        ensures
            match parsed(bytes@) {
                Ok(msg) => message_handled(
                    old(self)@,
                    msg,
                    final(self)@,
                    reaction_view(reaction),
                ),
                Err(e) => reaction_view(reaction) == Err::<ReactionView, LedgerError>(e)
                    && final(self)@ == old(self)@,
            },
    {
        match bytes_to_cmd(bytes) {
            Ok(cmd) => self.handle_message(cmd),
            Err(e) => Err(e),
        }
    }
}

/// Once the verification of a pooled transaction fails with an error, the
/// pool as a whole has that error.
pub proof fn lemma_verifying_stays_failed(c: ChainView, pool: Seq<TransactionView>, k: int, n: int)
    requires
        0 <= k <= n <= pool.len(),
        verified_of(c, pool.take(k)) is Err,
    ensures
        verified_of(c, pool.take(n)) == verified_of(c, pool.take(k)),
    decreases n - k,
{
    if k < n {
        lemma_verifying_stays_failed(c, pool, k, n - 1);
        assert(pool.take(n).drop_last() =~= pool.take(n - 1));
    }
}

} // verus!
