//! The single steps by which a node reads and changes what it holds.

use crate::block::{mined_from, mining_fails, unsealed, Block};
use crate::blockchain::{
    accept, best_height, chain_of, chain_verdict, extended, find_block, next_height,
};
use crate::blockchain_unspent_tx::{all_transactions, unspent_in};
use crate::error::LedgerError;
use crate::message::{clone_strings, texts};
use crate::node::Node;
use crate::transaction::{clone_transactions, transactions_view, Transaction, TransactionView};
use vstd::prelude::*;
use vstd::string::StringExecFns;

verus! {

/// `list` without every occurrence of `text`.
pub open spec fn without(list: Seq<Seq<char>>, text: Seq<char>) -> Seq<Seq<char>>
    decreases list.len(),
{
    if list.len() == 0 {
        Seq::empty()
    } else if list.last() == text {
        without(list.drop_last(), text)
    } else {
        without(list.drop_last(), text).push(list.last())
    }
}

/// `list` with `text` behind it, unless it holds `text` already.
pub open spec fn with_member(list: Seq<Seq<char>>, text: Seq<char>) -> Seq<Seq<char>> {
    if list.contains(text) {
        list
    } else {
        list.push(text)
    }
}

/// Place in `pool` of the transaction held under `id`: the last one that
/// carries it. `-1` where none does.
pub open spec fn pool_place(pool: Seq<TransactionView>, id: Seq<char>) -> int
    decreases pool.len(),
{
    if pool.len() == 0 {
        -1
    } else if pool.last().id == id {
        pool.len() - 1
    } else {
        pool_place(pool.drop_last(), id)
    }
}

/// The transaction held in `pool` under `id`.
pub open spec fn pool_get(pool: Seq<TransactionView>, id: Seq<char>) -> Option<TransactionView> {
    if pool_place(pool, id) >= 0 {
        Some(pool[pool_place(pool, id)])
    } else {
        None
    }
}

/// The pool with `tx` put under its id: in the place of the transaction that
/// was held under it, or behind all others.
pub open spec fn pool_put(pool: Seq<TransactionView>, tx: TransactionView) -> Seq<TransactionView> {
    if pool_place(pool, tx.id) >= 0 {
        pool.update(pool_place(pool, tx.id), tx)
    } else {
        pool.push(tx)
    }
}

/// Whether `list` holds `text`.
pub fn holds_text(list: &Vec<String>, text: &String) -> (held: bool)
    ensures
        held == texts(list@).contains(text@),
{
    let mut i: usize = 0;
    while i < list.len()
        invariant
            i <= list@.len(),
            forall|k: int| 0 <= k < i ==> texts(list@)[k] != text@,
        decreases list@.len() - i,
    {
        if list[i] == *text {
            assert(texts(list@)[i as int] == text@);
            return true;
        }
        i = i + 1;
    }
    false
}

/// Place in `pool` of the transaction held under `id`.
pub fn find_in_pool(pool: &Vec<Transaction>, id: &String) -> (place: Option<usize>)
    ensures
        match place {
            Some(i) => i == pool_place(transactions_view(pool@), id@) && i < pool@.len(),
            None => pool_place(transactions_view(pool@), id@) == -1,
        },
{
    let ghost all = transactions_view(pool@);
    let mut place: Option<usize> = None;
    let mut i: usize = 0;
    while i < pool.len()
        invariant
            i <= pool@.len(),
            all == transactions_view(pool@),
            match place {
                Some(k) => k == pool_place(all.take(i as int), id@) && k < i,
                None => pool_place(all.take(i as int), id@) == -1,
            },
        decreases pool@.len() - i,
    {
        proof {
            assert(all.take(i + 1).drop_last() =~= all.take(i as int));
            assert(all.take(i + 1).last() == pool@[i as int]@);
        }
        if pool[i].id == *id {
            place = Some(i);
        }
        i = i + 1;
    }
    proof {
        assert(all.take(all.len() as int) =~= all);
    }
    place
}

impl Node {
    /// Forgets the peer `addr`.
    pub fn remove_node(&mut self, addr: &str)
        ensures
            final(self).peers() == without(old(self).peers(), addr@),
            final(self).address == old(self).address,
            final(self).miner_address == old(self).miner_address,
            final(self).metadata.unspent_tx == old(self).metadata.unspent_tx,
            final(self).metadata.blocks_in_transit == old(self).metadata.blocks_in_transit,
            final(self).metadata.mem_pool == old(self).metadata.mem_pool,
    {
        let gone = String::from_str(addr);
        let ghost all = self.peers();
        let mut kept: Vec<String> = Vec::new();
        let mut i: usize = 0;
        while i < self.metadata.known_nodes.len()
            invariant
                i <= self.metadata.known_nodes@.len(),
                *self == *old(self),
                all == self.peers(),
                gone@ == addr@,
                texts(kept@) == without(all.take(i as int), addr@),
            decreases self.metadata.known_nodes@.len() - i,
        {
            proof {
                assert(all.take(i + 1).drop_last() =~= all.take(i as int));
                assert(all.take(i + 1).last() == self.metadata.known_nodes@[i as int]@);
            }
            if !(self.metadata.known_nodes[i] == gone) {
                let ghost before = texts(kept@);
                kept.push(self.metadata.known_nodes[i].clone());
                assert(texts(kept@) =~= before.push(self.metadata.known_nodes@[i as int]@));
            }
            i = i + 1;
        }
        proof {
            assert(all.take(all.len() as int) =~= all);
        }
        self.metadata.known_nodes = kept;
    }

    /// Takes note of the peer `addr`.
    pub fn add_nodes(&mut self, addr: &str)
        ensures
            final(self).peers() == with_member(old(self).peers(), addr@),
            final(self).address == old(self).address,
            final(self).miner_address == old(self).miner_address,
            final(self).metadata.unspent_tx == old(self).metadata.unspent_tx,
            final(self).metadata.blocks_in_transit == old(self).metadata.blocks_in_transit,
            final(self).metadata.mem_pool == old(self).metadata.mem_pool,
    {
        let peer = String::from_str(addr);
        if !holds_text(&self.metadata.known_nodes, &peer) {
            let ghost before = self.peers();
            self.metadata.known_nodes.push(peer);
            assert(self.peers() =~= before.push(addr@));
        }
    }

    /// The peers known.
    pub fn get_known_nodes(&self) -> (peers: Vec<String>)
        ensures
            texts(peers@) == self.peers(),
    {
        clone_strings(&self.metadata.known_nodes)
    }

    /// Whether the peer `addr` is known.
    pub fn node_is_known(&self, addr: &str) -> (known: bool)
        ensures
            known == self.peers().contains(addr@),
    {
        let peer = String::from_str(addr);
        holds_text(&self.metadata.known_nodes, &peer)
    }

    /// Replaces the queue of hashes still to be asked for.
    pub fn replace_in_transit(&mut self, hashs: Vec<String>)
        ensures
            final(self).queue() == texts(hashs@),
            final(self).address == old(self).address,
            final(self).miner_address == old(self).miner_address,
            final(self).metadata.unspent_tx == old(self).metadata.unspent_tx,
            final(self).metadata.known_nodes == old(self).metadata.known_nodes,
            final(self).metadata.mem_pool == old(self).metadata.mem_pool,
    {
        self.metadata.blocks_in_transit = hashs;
    }

    /// The hashes still to be asked for.
    pub fn get_in_transit(&self) -> (hashs: Vec<String>)
        ensures
            texts(hashs@) == self.queue(),
    {
        clone_strings(&self.metadata.blocks_in_transit)
    }

    /// The transaction held in the mempool under `id`.
    pub fn get_mempool_tx(&self, id: &str) -> (tx: Option<Transaction>)
        ensures
            match tx {
                Some(t) => pool_get(self.pool(), id@) == Some(t@),
                None => pool_get(self.pool(), id@) is None,
            },
    {
        let wanted = String::from_str(id);
        match find_in_pool(&self.metadata.mem_pool, &wanted) {
            Some(i) => Some(self.metadata.mem_pool[i].clone()),
            None => None,
        }
    }

    /// The transactions held in the mempool.
    pub fn get_mempool(&self) -> (pool: Vec<Transaction>)
        ensures
            transactions_view(pool@) == self.pool(),
    {
        clone_transactions(&self.metadata.mem_pool)
    }

    /// Holds `tx` in the mempool under its id.
    pub fn insert_mempool(&mut self, tx: Transaction)
        ensures
            final(self).pool() == pool_put(old(self).pool(), tx@),
            final(self).address == old(self).address,
            final(self).miner_address == old(self).miner_address,
            final(self).metadata.unspent_tx == old(self).metadata.unspent_tx,
            final(self).metadata.known_nodes == old(self).metadata.known_nodes,
            final(self).metadata.blocks_in_transit == old(self).metadata.blocks_in_transit,
    {
        let ghost before = self.pool();
        match find_in_pool(&self.metadata.mem_pool, &tx.id) {
            Some(i) => {
                self.metadata.mem_pool.set(i, tx);
                assert(self.pool() =~= before.update(i as int, tx@));
            },
            None => {
                self.metadata.mem_pool.push(tx);
                assert(self.pool() =~= before.push(tx@));
            },
        }
    }

    /// Empties the mempool.
    pub fn clear_mempool(&mut self)
        ensures
            final(self).pool().len() == 0,
            final(self).address == old(self).address,
            final(self).miner_address == old(self).miner_address,
            final(self).metadata.unspent_tx == old(self).metadata.unspent_tx,
            final(self).metadata.known_nodes == old(self).metadata.known_nodes,
            final(self).metadata.blocks_in_transit == old(self).metadata.blocks_in_transit,
    {
        self.metadata.mem_pool = Vec::new();
    }

    /// Height of the head of the node's chain; `-1` where it has none.
    pub fn get_best_height(&self) -> (height: i32)
        ensures
            height == best_height(self.chain()),
    {
        self.metadata.unspent_tx.chain.get_best_height()
    }

    /// The hashes of the blocks of the node's chain, head first.
    pub fn get_block_hashs(&self) -> (hashes: Vec<String>)
        ensures
            hashes@.len() == chain_of(self.chain()).len(),
            forall|k: int|
                0 <= k < hashes@.len() ==> (#[trigger] hashes@[k])@ == chain_of(
                    self.chain(),
                )[k].hash,
    {
        self.metadata.unspent_tx.chain.get_block_hashs()
    }

    /// The block that the node holds under `block_hash`.
    pub fn get_block(&self, block_hash: &str) -> (found: Result<Block, LedgerError>)
        ensures
            match found {
                Ok(block) => find_block(self.chain().blocks, block_hash@) == Some(block@),
                Err(e) => e == LedgerError::BlockNotFound && find_block(
                    self.chain().blocks,
                    block_hash@,
                ) is None,
            },
    {
        self.metadata.unspent_tx.chain.get_block(block_hash)
    }

    /// Verifies `tx` against the node's chain.
    pub fn verify_tx(&self, tx: &Transaction) -> (verdict: Result<bool, LedgerError>)
        ensures
            verdict == chain_verdict(self.chain(), tx@),
    {
        self.metadata.unspent_tx.chain.verify_transacton(tx)
    }

    /// Offers `block` to the node's chain.
    pub fn add_block(&mut self, block: Block)
        ensures
            final(self).chain() == accept(old(self).chain(), block@),
            final(self).address == old(self).address,
            final(self).miner_address == old(self).miner_address,
            final(self).metadata.unspent_tx.utxos == old(self).metadata.unspent_tx.utxos,
            final(self).metadata.known_nodes == old(self).metadata.known_nodes,
            final(self).metadata.blocks_in_transit == old(self).metadata.blocks_in_transit,
            final(self).metadata.mem_pool == old(self).metadata.mem_pool,
    {
        self.metadata.unspent_tx.chain.add_block(block);
    }

    /// Mines a block of `txs` on top of the head of the node's chain, as
    /// [`Blockchain::mine_block`] does.
    pub fn mine_block(&mut self, txs: Vec<Transaction>) -> (mined: Result<Block, LedgerError>)
        ensures
            match mined {
                Ok(block) => {
                    &&& next_height(old(self).chain(), transactions_view(txs@)) is Ok
                    &&& mined_from(
                        block@,
                        transactions_view(txs@),
                        old(self).chain().head,
                        next_height(old(self).chain(), transactions_view(txs@)).unwrap(),
                        block@.timestamp,
                    )
                    &&& final(self).chain() == extended(old(self).chain(), block@)
                },
                Err(e) => {
                    &&& final(self).chain() == old(self).chain()
                    &&& match next_height(old(self).chain(), transactions_view(txs@)) {
                        Err(refusal) => e == refusal,
                        Ok(height) => e == LedgerError::Clock || exists|timestamp: u128|
                            #[trigger] mining_fails(
                                unsealed(
                                    transactions_view(txs@),
                                    old(self).chain().head,
                                    height,
                                    timestamp,
                                ),
                                e,
                            ),
                    }
                },
            },
            final(self).address == old(self).address,
            final(self).miner_address == old(self).miner_address,
            final(self).metadata.unspent_tx.utxos == old(self).metadata.unspent_tx.utxos,
            final(self).metadata.known_nodes == old(self).metadata.known_nodes,
            final(self).metadata.blocks_in_transit == old(self).metadata.blocks_in_transit,
            final(self).metadata.mem_pool == old(self).metadata.mem_pool,
    {
        self.metadata.unspent_tx.chain.mine_block(txs)
    }

    /// Rebuilds the index of unspent outputs from the node's chain.
    pub fn utxo_reindex(&mut self)
        ensures
            final(self).metadata.unspent_tx.wf(),
            final(self).metadata.unspent_tx.unspent() == unspent_in(
                all_transactions(chain_of(old(self).chain()).reverse()),
            ),
            final(self).metadata.unspent_tx.chain == old(self).metadata.unspent_tx.chain,
            final(self).address == old(self).address,
            final(self).miner_address == old(self).miner_address,
            final(self).metadata.known_nodes == old(self).metadata.known_nodes,
            final(self).metadata.blocks_in_transit == old(self).metadata.blocks_in_transit,
            final(self).metadata.mem_pool == old(self).metadata.mem_pool,
    {
        self.metadata.unspent_tx.reindex();
    }
}

} // verus!
