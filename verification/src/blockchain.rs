//! The chain: a store of blocks by hash, and the head that names the newest.

use crate::block::{mined_from, mining_fails, unsealed, Block, BlockView};
use crate::blockchain_itr::BlockchainIter;
use crate::clock::now_millis;
use crate::error::LedgerError;
use crate::transaction::{
    coinbase_for, is_coinbase_tx, sign_outcome, transactions_view, verify_outcome, Transaction,
    TransactionView,
};
use vstd::prelude::*;
use vstd::string::StringExecFns;

verus! {

/// The blocks a node holds, and the hash of the one it takes for the newest.
#[derive(Debug)]
pub struct Blockchain {
    curr_hash: String,
    blocks: Vec<Block>,
}

/// A chain as contracts speak of it.
pub struct ChainView {
    /// Hash of the head block; names no block while the store is empty.
    pub head: Seq<char>,
    /// The stored blocks, in the order they came.
    pub blocks: Seq<BlockView>,
}

/// The blocks as contracts speak of them.
pub open spec fn blocks_view(blocks: Seq<Block>) -> Seq<BlockView> {
    blocks.map_values(|b: Block| b@)
}

impl View for Blockchain {
    type V = ChainView;

    closed spec fn view(&self) -> ChainView {
        ChainView { head: self.curr_hash@, blocks: blocks_view(self.blocks@) }
    }
}

/// Place in `blocks` of the block stored under `hash`: the last one that
/// carries it. `-1` where none does.
pub open spec fn place_of(blocks: Seq<BlockView>, hash: Seq<char>) -> int
    decreases blocks.len(),
{
    if blocks.len() == 0 {
        -1
    } else if blocks.last().hash == hash {
        blocks.len() - 1
    } else {
        place_of(blocks.drop_last(), hash)
    }
}

/// The block stored under `hash`.
pub open spec fn find_block(blocks: Seq<BlockView>, hash: Seq<char>) -> Option<BlockView> {
    if place_of(blocks, hash) >= 0 {
        Some(blocks[place_of(blocks, hash)])
    } else {
        None
    }
}

/// The blocks met from `hash` backwards along the links to predecessors,
/// newest first, in at most `fuel` steps. The walk ends where a hash names no
/// stored block.
pub open spec fn walk(blocks: Seq<BlockView>, hash: Seq<char>, fuel: nat) -> Seq<BlockView>
    decreases fuel,
{
    if fuel == 0 {
        Seq::empty()
    } else {
        match find_block(blocks, hash) {
            None => Seq::empty(),
            Some(b) => seq![b] + walk(blocks, b.prev_hash, (fuel - 1) as nat),
        }
    }
}

/// The chain from the head backwards, newest block first. No block of a
/// chain without a cycle is met twice, so as many steps as there are stored
/// blocks reach its end.
pub open spec fn chain_of(c: ChainView) -> Seq<BlockView> {
    walk(c.blocks, c.head, c.blocks.len())
}

/// Height of the head block; `-1` where the head names no stored block.
pub open spec fn best_height(c: ChainView) -> int {
    match find_block(c.blocks, c.head) {
        Some(b) => b.height as int,
        None => -1,
    }
}

/// The first transaction of `txs` that carries `id`.
pub open spec fn first_with_id(txs: Seq<TransactionView>, id: Seq<char>) -> Option<
    TransactionView,
>
    decreases txs.len(),
{
    if txs.len() == 0 {
        None
    } else if txs[0].id == id {
        Some(txs[0])
    } else {
        first_with_id(txs.drop_first(), id)
    }
}

/// The transaction with `id` in the first of `blocks` that holds one.
pub open spec fn find_in_blocks(blocks: Seq<BlockView>, id: Seq<char>) -> Option<TransactionView>
    decreases blocks.len(),
{
    if blocks.len() == 0 {
        None
    } else {
        match first_with_id(blocks[0].transactions, id) {
            Some(tx) => Some(tx),
            None => find_in_blocks(blocks.drop_first(), id),
        }
    }
}

/// For the first `k` inputs of `tx`, in order, the transaction of the chain
/// that each names. Nothing where one of them names none.
pub open spec fn priors_in_chain(c: ChainView, tx: TransactionView, k: nat) -> Option<
    Seq<TransactionView>,
>
    decreases k,
{
    if k == 0 {
        Some(Seq::empty())
    } else {
        match (
            priors_in_chain(c, tx, (k - 1) as nat),
            find_in_blocks(chain_of(c), tx.input[k - 1].txid),
        ) {
            (Some(before), Some(prior)) => Some(before.push(prior)),
            _ => None,
        }
    }
}

/// What signing `tx` against the chain gives: every input must name a
/// transaction of the chain, and the transaction is then signed against those.
pub open spec fn chain_signing(c: ChainView, tx: TransactionView, key: Seq<u8>) -> Result<
    TransactionView,
    LedgerError,
> {
    match priors_in_chain(c, tx, tx.input.len()) {
        None => Err(LedgerError::MissingPrior),
        Some(known) => sign_outcome(tx, known, key),
    }
}

/// What verifying `tx` against the chain gives: a coinbase verifies; of any
/// other transaction every input must name a transaction of the chain, and
/// the signatures are then checked against those.
pub open spec fn chain_verdict(c: ChainView, tx: TransactionView) -> Result<bool, LedgerError> {
    if is_coinbase_tx(tx) {
        Ok(true)
    } else {
        match priors_in_chain(c, tx, tx.input.len()) {
            None => Err(LedgerError::MissingPrior),
            Some(known) => verify_outcome(tx, known),
        }
    }
}

/// The store with `block` put under its hash: in the place of the block that
/// was stored under it, or behind all others.
pub open spec fn store_put(blocks: Seq<BlockView>, block: BlockView) -> Seq<BlockView> {
    if place_of(blocks, block.hash) >= 0 {
        blocks.update(place_of(blocks, block.hash), block)
    } else {
        blocks.push(block)
    }
}

/// The chain after `block` was offered to it. A block whose hash is already
/// stored changes nothing. Any other is stored, and becomes the head where it
/// is higher than the head was.
pub open spec fn accept(c: ChainView, block: BlockView) -> ChainView {
    if find_block(c.blocks, block.hash) is Some {
        c
    } else {
        ChainView {
            head: if block.height > best_height(c) {
                block.hash
            } else {
                c.head
            },
            blocks: c.blocks.push(block),
        }
    }
}

/// Screening of the transactions offered for a block, from `from` on and in
/// order: the first that does not verify ends it, with the error of its
/// verification or with `InvalidTransaction`.
pub open spec fn screening(c: ChainView, txs: Seq<TransactionView>, from: nat) -> Result<
    (),
    LedgerError,
>
    decreases txs.len() - from,
{
    if from >= txs.len() {
        Ok(())
    } else {
        match chain_verdict(c, txs[from as int]) {
            Err(e) => Err(e),
            Ok(false) => Err(LedgerError::InvalidTransaction),
            Ok(true) => screening(c, txs, from + 1),
        }
    }
}

/// The height at which the next block is mined, or why none can be: the
/// transactions must pass screening, the head must name a stored block, and
/// the height above it must be in range.
pub open spec fn next_height(c: ChainView, txs: Seq<TransactionView>) -> Result<i32, LedgerError> {
    match screening(c, txs, 0) {
        Err(e) => Err(e),
        Ok(()) => if find_block(c.blocks, c.head) is None {
            Err(LedgerError::NoHead)
        } else if best_height(c) >= i32::MAX {
            Err(LedgerError::Overflow)
        } else {
            Ok((best_height(c) + 1) as i32)
        },
    }
}

/// The chain after `block` was mined on top of it: the block is stored under
/// its hash and is the head.
pub open spec fn extended(c: ChainView, block: BlockView) -> ChainView {
    ChainView { head: block.hash, blocks: store_put(c.blocks, block) }
}

/// The text carried by the coinbase of a genesis block.
pub open spec fn genesis_memo() -> Seq<char> {
    "Some data for genesis block"@
}

/// Where no transaction before place `i` carries `id`, the first that does
/// is the one at `i`, if it does, and there is none if `i` is the end.
pub proof fn lemma_first_with_id(txs: Seq<TransactionView>, id: Seq<char>, i: int)
    requires
        0 <= i <= txs.len(),
        forall|k: int| 0 <= k < i ==> (#[trigger] txs[k]).id != id,
    ensures
        i < txs.len() && txs[i].id == id ==> first_with_id(txs, id) == Some(txs[i]),
        i == txs.len() ==> first_with_id(txs, id) is None,
    decreases i,
{
    if i > 0 {
        let rest = txs.drop_first();
        assert forall|k: int| 0 <= k < i - 1 implies (#[trigger] rest[k]).id != id by {
            assert(rest[k] == txs[k + 1]);
        }
        lemma_first_with_id(rest, id, i - 1);
        if i < txs.len() {
            assert(rest[i - 1] == txs[i]);
        }
    }
}

/// Where no block before place `i` holds a transaction with `id`, the
/// transaction found is the one of block `i`, if it holds one, and there is
/// none if `i` is the end.
pub proof fn lemma_find_in_blocks(blocks: Seq<BlockView>, id: Seq<char>, i: int)
    requires
        0 <= i <= blocks.len(),
        forall|k: int| 0 <= k < i ==> first_with_id((#[trigger] blocks[k]).transactions, id) is None,
    ensures
        i < blocks.len() && first_with_id(blocks[i].transactions, id) is Some ==> find_in_blocks(
            blocks,
            id,
        ) == first_with_id(blocks[i].transactions, id),
        i == blocks.len() ==> find_in_blocks(blocks, id) is None,
    decreases i,
{
    if i > 0 {
        let rest = blocks.drop_first();
        assert forall|k: int| 0 <= k < i - 1 implies first_with_id(
            (#[trigger] rest[k]).transactions,
            id,
        ) is None by {
            assert(rest[k] == blocks[k + 1]);
        }
        lemma_find_in_blocks(rest, id, i - 1);
        if i < blocks.len() {
            assert(rest[i - 1] == blocks[i]);
        }
    }
}

/// A walk with fuel for one step more is the walk so far, carried on from
/// where it stood.
pub proof fn lemma_walk_split(blocks: Seq<BlockView>, hash: Seq<char>, done: nat, left: nat)
    ensures
        walk(blocks, hash, done + left) == walk(blocks, hash, done) + walk(
            blocks,
            walk_end(blocks, hash, done),
            if walk(blocks, hash, done).len() == done {
                left
            } else {
                0
            },
        ),
    decreases done,
{
    if done == 0 {
        assert(walk(blocks, hash, 0) + walk(blocks, hash, left) =~= walk(blocks, hash, left));
    } else {
        match find_block(blocks, hash) {
            None => {
                assert(walk(blocks, hash, done + left) =~= Seq::<BlockView>::empty());
                assert(walk(blocks, hash, done) + Seq::<BlockView>::empty() =~= Seq::<
                    BlockView,
                >::empty());
            },
            Some(b) => {
                lemma_walk_split(blocks, b.prev_hash, (done - 1) as nat, left);
                let tail = walk(blocks, b.prev_hash, (done - 1) as nat);
                assert(walk(blocks, hash, done) == seq![b] + tail);
                assert(walk(blocks, hash, done).len() == done <==> tail.len() == done - 1);
                let rest = walk(
                    blocks,
                    walk_end(blocks, b.prev_hash, (done - 1) as nat),
                    if tail.len() == done - 1 {
                        left
                    } else {
                        0
                    },
                );
                assert(walk(blocks, hash, done + left) == seq![b] + walk(
                    blocks,
                    b.prev_hash,
                    (done - 1 + left) as nat,
                ));
                assert(seq![b] + (tail + rest) =~= (seq![b] + tail) + rest);
            },
        }
    }
}

/// The hash at which a walk of `fuel` steps from `hash` stands when it ends.
pub open spec fn walk_end(blocks: Seq<BlockView>, hash: Seq<char>, fuel: nat) -> Seq<char>
    decreases fuel,
{
    if fuel == 0 {
        hash
    } else {
        match find_block(blocks, hash) {
            None => hash,
            Some(b) => walk_end(blocks, b.prev_hash, (fuel - 1) as nat),
        }
    }
}

impl Blockchain {
    /// A chain that holds no block yet.
    pub fn new() -> (chain: Blockchain)
        ensures
            chain@.blocks.len() == 0,
            chain@.head.len() == 0,
    {
        Blockchain { curr_hash: String::new(), blocks: Vec::new() }
    }

    /// The hash of the head block.
    pub fn get_curr_hash(&self) -> (hash: String)
        ensures
            hash@ == self@.head,
    {
        self.curr_hash.clone()
    }

    /// Number of blocks stored.
    pub fn block_count(&self) -> (n: usize)
        ensures
            n == self@.blocks.len(),
    {
        self.blocks.len()
    }

    /// Place in the store of the block stored under `hash`.
    pub fn position(&self, hash: &String) -> (place: Option<usize>)
        ensures
            match place {
                Some(i) => i == place_of(self@.blocks, hash@) && i < self@.blocks.len(),
                None => place_of(self@.blocks, hash@) == -1,
            },
    {
        let mut place: Option<usize> = None;
        let mut i: usize = 0;
        while i < self.blocks.len()
            invariant
                i <= self.blocks@.len(),
                match place {
                    Some(k) => k == place_of(self@.blocks.take(i as int), hash@) && k < i,
                    None => place_of(self@.blocks.take(i as int), hash@) == -1,
                },
            decreases self.blocks@.len() - i,
        {
            proof {
                let all = self@.blocks;
                assert(all.take(i + 1).drop_last() =~= all.take(i as int));
                assert(all.take(i + 1).last() == self.blocks@[i as int]@);
            }
            if self.blocks[i].get_hash() == *hash {
                place = Some(i);
            }
            i = i + 1;
        }
        proof {
            assert(self@.blocks.take(self@.blocks.len() as int) =~= self@.blocks);
        }
        place
    }

    /// The stored block at `place`.
    pub fn block_at(&self, place: usize) -> (block: &Block)
        requires
            place < self@.blocks.len(),
        ensures
            block@ == self@.blocks[place as int],
    {
        &self.blocks[place]
    }

    /// The places in the store of the blocks of the chain, head first.
    pub fn chain_places(&self) -> (places: Vec<usize>)
        ensures
            places@.len() == chain_of(self@).len(),
            forall|k: int|
                0 <= k < places@.len() ==> (#[trigger] places@[k]) < self@.blocks.len()
                    && self@.blocks[places@[k] as int] == chain_of(self@)[k],
    {
        let n: usize = self.blocks.len();
        let mut places: Vec<usize> = Vec::new();
        let mut current: String = self.curr_hash.clone();
        let mut steps: usize = 0;
        let mut open: bool = true;
        while steps < n && open
            invariant
                n == self@.blocks.len(),
                steps <= n,
                open ==> places@.len() == steps,
                places@.len() <= steps,
                forall|k: int|
                    0 <= k < places@.len() ==> (#[trigger] places@[k]) < self@.blocks.len()
                        && self@.blocks[places@[k] as int] == walk(
                        self@.blocks,
                        self@.head,
                        steps as nat,
                    )[k],
                walk(self@.blocks, self@.head, steps as nat).len() == places@.len(),
                open ==> current@ == walk_end(self@.blocks, self@.head, steps as nat),
                !open ==> walk(self@.blocks, self@.head, n as nat) == walk(
                    self@.blocks,
                    self@.head,
                    steps as nat,
                ),
            decreases n - steps + if open { 1int } else { 0int },
        {
            proof {
                lemma_walk_split(self@.blocks, self@.head, steps as nat, 1);
                lemma_walk_end_step(self@.blocks, self@.head, steps as nat);
            }
            match self.position(&current) {
                None => {
                    proof {
                        lemma_walk_split(
                            self@.blocks,
                            self@.head,
                            steps as nat,
                            (n - steps) as nat,
                        );
                        assert(walk(self@.blocks, current@, (n - steps) as nat) =~= Seq::<
                            BlockView,
                        >::empty());
                        assert(walk(self@.blocks, self@.head, steps as nat) + Seq::<
                            BlockView,
                        >::empty() =~= walk(self@.blocks, self@.head, steps as nat));
                    }
                    open = false;
                },
                Some(i) => {
                    places.push(i);
                    current = self.blocks[i].get_prev_block_hash();
                    steps = steps + 1;
                },
            }
        }
        places
    }

    /// The chain that holds `blocks`, in that order, with `curr_hash` as the
    /// hash of its head.
    pub fn restore(curr_hash: String, blocks: Vec<Block>) -> (chain: Blockchain)
        ensures
            chain@.head == curr_hash@,
            chain@.blocks == blocks_view(blocks@),
    {
        Blockchain { curr_hash, blocks }
    }

    /// A new chain: a genesis block whose coinbase pays the reward to
    /// `address`, and nothing else.
    ///
    /// Fails with `InvalidAddress` exactly where `address` is no address.
    /// The other failures are those of making the coinbase and of mining.
    pub fn create_blockchain(address: String) -> (made: Result<Blockchain, LedgerError>)
        ensures
            match made {
                Ok(chain) => {
                    &&& chain@.blocks.len() == 1
                    &&& chain@.head == chain@.blocks[0].hash
                    &&& coinbase_for(address@, genesis_memo()) is Some
                    &&& mined_from(
                        chain@.blocks[0],
                        seq![coinbase_for(address@, genesis_memo()).unwrap()],
                        Seq::empty(),
                        0,
                        chain@.blocks[0].timestamp,
                    )
                },
                Err(e) => match coinbase_for(address@, genesis_memo()) {
                    None => e == if crate::address::hash_of_address(address@) is None {
                        LedgerError::InvalidAddress
                    } else {
                        LedgerError::Encoding
                    },
                    Some(coinbase) => e == LedgerError::Clock || exists|timestamp: u128|
                        #[trigger] mining_fails(
                            unsealed(seq![coinbase], Seq::empty(), 0, timestamp),
                            e,
                        ),
                },
            },
    {
        let coinbase = match Transaction::new_coinbase(
            address,
            String::from_str("Some data for genesis block"),
        ) {
            Ok(tx) => tx,
            Err(e) => {
                return Err(e);
            },
        };
        let ghost minted = coinbase@;
        assert(coinbase_for(address@, genesis_memo()) == Some(minted));
        let genesis = match Block::new_genesis_block(coinbase) {
            Ok(block) => block,
            Err(e) => {
                assert(coinbase_for(address@, genesis_memo()).unwrap() == minted);
                return Err(e);
            },
        };
        let curr_hash = genesis.get_hash();
        let mut blocks: Vec<Block> = Vec::new();
        blocks.push(genesis);
        let chain = Blockchain { curr_hash, blocks };
        assert(chain@.blocks =~= seq![genesis@]);
        Ok(chain)
    }

    /// The walk over the chain, standing at its head.
    pub fn iter(&self) -> (walker: BlockchainIter<'_>)
        ensures
            walker.bc == self,
            walker.pending() == chain_of(self@),
    {
        BlockchainIter {
            current_hash: self.curr_hash.clone(),
            bc: self,
            remaining: self.blocks.len(),
        }
    }

    /// The transaction with `id` in the newest block of the chain that holds
    /// one. Fails, with `MissingPrior`, exactly where no block of the chain
    /// does.
    pub fn find_transaction(&self, id: &str) -> (found: Result<Transaction, LedgerError>)
        ensures
            match found {
                Ok(tx) => find_in_blocks(chain_of(self@), id@) == Some(tx@),
                Err(e) => e == LedgerError::MissingPrior && find_in_blocks(chain_of(self@), id@)
                    is None,
            },
    {
        let wanted = String::from_str(id);
        let places = self.chain_places();
        let ghost chain = chain_of(self@);
        let mut i: usize = 0;
        while i < places.len()
            invariant
                i <= places@.len(),
                wanted@ == id@,
                chain == chain_of(self@),
                places@.len() == chain.len(),
                forall|k: int|
                    0 <= k < places@.len() ==> (#[trigger] places@[k]) < self@.blocks.len()
                        && self@.blocks[places@[k] as int] == chain[k],
                forall|k: int|
                    0 <= k < i ==> first_with_id((#[trigger] chain[k]).transactions, id@) is None,
            decreases places@.len() - i,
        {
            let block = self.block_at(places[i]);
            let txs = block.get_transaction();
            let ghost views = chain[i as int].transactions;
            let mut j: usize = 0;
            while j < txs.len()
                invariant
                    j <= txs@.len(),
                    wanted@ == id@,
                    views == transactions_view(txs@),
                    views == chain[i as int].transactions,
                    i < chain.len(),
                    chain == chain_of(self@),
                    forall|k: int|
                        0 <= k < i ==> first_with_id((#[trigger] chain[k]).transactions, id@)
                            is None,
                    forall|k: int| 0 <= k < j ==> (#[trigger] views[k]).id != id@,
                decreases txs@.len() - j,
            {
                if txs[j].id == wanted {
                    proof {
                        lemma_first_with_id(views, id@, j as int);
                        lemma_find_in_blocks(chain, id@, i as int);
                    }
                    return Ok(txs[j].clone());
                }
                j = j + 1;
            }
            proof {
                lemma_first_with_id(views, id@, views.len() as int);
            }
            i = i + 1;
        }
        proof {
            lemma_find_in_blocks(chain, id@, chain.len() as int);
        }
        Err(LedgerError::MissingPrior)
    }

    /// For each input of `tx`, in order, the transaction of the chain that it
    /// names. Fails, with `MissingPrior`, exactly where an input names none.
    pub fn get_prev_txs(&self, tx: &Transaction) -> (found: Result<Vec<Transaction>, LedgerError>)
        ensures
            match found {
                Ok(known) => priors_in_chain(self@, tx@, tx@.input.len()) == Some(
                    transactions_view(known@),
                ),
                Err(e) => e == LedgerError::MissingPrior && priors_in_chain(
                    self@,
                    tx@,
                    tx@.input.len(),
                ) is None,
            },
    {
        let mut known: Vec<Transaction> = Vec::new();
        let mut i: usize = 0;
        while i < tx.input.len()
            invariant
                i <= tx.input@.len(),
                priors_in_chain(self@, tx@, i as nat) == Some(transactions_view(known@)),
            decreases tx.input@.len() - i,
        {
            match self.find_transaction(tx.input[i].txid.as_str()) {
                Err(e) => {
                    proof {
                        assert(priors_in_chain(self@, tx@, (i + 1) as nat) is None);
                        lemma_priors_stay_missing(
                            self@,
                            tx@,
                            (i + 1) as nat,
                            tx@.input.len(),
                        );
                    }
                    return Err(e);
                },
                Ok(prior) => {
                    let ghost before = transactions_view(known@);
                    known.push(prior);
                    assert(transactions_view(known@) =~= before.push(prior@));
                },
            }
            i = i + 1;
        }
        Ok(known)
    }

    /// Signs `tx` with `private_key` against the transactions of the chain
    /// that its inputs name, as [`chain_signing`] defines it. Where signing
    /// fails the transaction is left as it was.
    pub fn sign_transacton(&self, tx: &mut Transaction, private_key: &[u8]) -> (done: Result<
        (),
        LedgerError,
    >)
        ensures
            match chain_signing(self@, old(tx)@, private_key@) {
                Ok(signed) => done is Ok && final(tx)@ == signed,
                Err(e) => done == Err::<(), LedgerError>(e) && final(tx)@ == old(tx)@,
            },
    {
        let known = match self.get_prev_txs(tx) {
            Ok(known) => known,
            Err(e) => {
                return Err(e);
            },
        };
        tx.sign(private_key, &known)
    }

    /// Verifies `tx` against the chain, as [`chain_verdict`] defines it.
    pub fn verify_transaction(&self, tx: &Transaction) -> (verdict: Result<bool, LedgerError>)
        ensures
            verdict == chain_verdict(self@, tx@),
    {
        self.verify_transacton(tx)
    }

    /// Verifies `tx` against the chain, as [`chain_verdict`] defines it.
    pub fn verify_transacton(&self, tx: &Transaction) -> (verdict: Result<bool, LedgerError>)
        ensures
            verdict == chain_verdict(self@, tx@),
    {
        if tx.is_coinbase() {
            return Ok(true);
        }
        let known = match self.get_prev_txs(tx) {
            Ok(known) => known,
            Err(e) => {
                return Err(e);
            },
        };
        tx.verify(&known)
    }

    /// The block stored under `block_hash`. Fails, with `BlockNotFound`,
    /// exactly where none is.
    pub fn get_block(&self, block_hash: &str) -> (found: Result<Block, LedgerError>)
        ensures
            match found {
                Ok(block) => find_block(self@.blocks, block_hash@) == Some(block@),
                Err(e) => e == LedgerError::BlockNotFound && find_block(self@.blocks, block_hash@)
                    is None,
            },
    {
        let wanted = String::from_str(block_hash);
        match self.position(&wanted) {
            Some(i) => Ok(self.blocks[i].clone()),
            None => Err(LedgerError::BlockNotFound),
        }
    }

    /// Height of the head block; `-1` while the head names no stored block.
    pub fn get_best_height(&self) -> (height: i32)
        ensures
            height == best_height(self@),
    {
        match self.position(&self.curr_hash) {
            Some(i) => self.blocks[i].get_height(),
            None => -1,
        }
    }

    /// The hashes of the blocks of the chain, head first.
    pub fn get_block_hashs(&self) -> (hashes: Vec<String>)
        ensures
            hashes@.len() == chain_of(self@).len(),
            forall|k: int| 0 <= k < hashes@.len() ==> (#[trigger] hashes@[k])@ == chain_of(
                self@,
            )[k].hash,
    {
        let places = self.chain_places();
        let mut hashes: Vec<String> = Vec::new();
        let mut i: usize = 0;
        while i < places.len()
            invariant
                i <= places@.len(),
                hashes@.len() == i,
                places@.len() == chain_of(self@).len(),
                forall|k: int|
                    0 <= k < places@.len() ==> (#[trigger] places@[k]) < self@.blocks.len()
                        && self@.blocks[places@[k] as int] == chain_of(self@)[k],
                forall|k: int| 0 <= k < i ==> (#[trigger] hashes@[k])@ == chain_of(self@)[k].hash,
            decreases places@.len() - i,
        {
            hashes.push(self.block_at(places[i]).get_hash());
            i = i + 1;
        }
        hashes
    }

    /// Offers `block` to the chain, as [`accept`] defines it: a block whose
    /// hash is already stored changes nothing; any other is stored, and
    /// becomes the head where it is higher than the head was.
    pub fn add_block(&mut self, block: Block)
        ensures
            final(self)@ == accept(old(self)@, block@),
    {
        let hash = block.get_hash();
        if self.position(&hash).is_some() {
            return;
        }
        let last_height = self.get_best_height();
        let height = block.get_height();
        let ghost before = self@.blocks;
        self.blocks.push(block);
        assert(self@.blocks =~= before.push(block@));
        if height > last_height {
            self.curr_hash = hash;
        }
    }

    /// Screens `transactions` and gives the height for the block that is to
    /// hold them, as [`next_height`] defines it.
    pub fn prepare_block(&self, transactions: &Vec<Transaction>) -> (height: Result<
        i32,
        LedgerError,
    >)
        ensures
            height == next_height(self@, transactions_view(transactions@)),
    {
        let ghost txs = transactions_view(transactions@);
        let mut i: usize = 0;
        while i < transactions.len()
            invariant
                i <= transactions@.len(),
                txs == transactions_view(transactions@),
                screening(self@, txs, 0) == screening(self@, txs, i as nat),
            decreases transactions@.len() - i,
        {
            match self.verify_transacton(&transactions[i]) {
                Err(e) => {
                    return Err(e);
                },
                Ok(false) => {
                    return Err(LedgerError::InvalidTransaction);
                },
                Ok(true) => {},
            }
            i = i + 1;
        }
        match self.position(&self.curr_hash) {
            None => Err(LedgerError::NoHead),
            Some(k) => {
                let best = self.blocks[k].get_height();
                if best == i32::MAX {
                    Err(LedgerError::Overflow)
                } else {
                    Ok(best + 1)
                }
            },
        }
    }

    /// Stores a freshly mined block under its hash and makes it the head.
    fn seal(&mut self, block: &Block)
        ensures
            final(self)@ == extended(old(self)@, block@),
    {
        let hash = block.get_hash();
        let ghost before = self@.blocks;
        match self.position(&hash) {
            Some(i) => {
                self.blocks.set(i, block.clone());
                assert(self@.blocks =~= before.update(i as int, block@));
            },
            None => {
                self.blocks.push(block.clone());
                assert(self@.blocks =~= before.push(block@));
            },
        }
        self.curr_hash = hash;
    }

    /// Mines a block of `transactions` on top of the head at the time the
    /// clock gives, as [`Blockchain::mine_block_at`] does with that time.
    /// Fails with `Clock` where the clock stands before the epoch; where the
    /// transactions cannot be taken at all, the clock is not read and the
    /// failure is that of [`next_height`].
    pub fn mine_block(&mut self, transactions: Vec<Transaction>) -> (mined: Result<
        Block,
        LedgerError,
    >)
        ensures
            match mined {
                Ok(block) => {
                    &&& next_height(old(self)@, transactions_view(transactions@)) is Ok
                    &&& mined_from(
                        block@,
                        transactions_view(transactions@),
                        old(self)@.head,
                        next_height(old(self)@, transactions_view(transactions@)).unwrap(),
                        block@.timestamp,
                    )
                    &&& final(self)@ == extended(old(self)@, block@)
                },
                Err(e) => {
                    &&& final(self)@ == old(self)@
                    &&& match next_height(old(self)@, transactions_view(transactions@)) {
                        Err(refusal) => e == refusal,
                        Ok(height) => e == LedgerError::Clock || exists|timestamp: u128|
                            #[trigger] mining_fails(
                                unsealed(
                                    transactions_view(transactions@),
                                    old(self)@.head,
                                    height,
                                    timestamp,
                                ),
                                e,
                            ),
                    }
                },
            },
    {
        let height = match self.prepare_block(&transactions) {
            Ok(height) => height,
            Err(e) => {
                return Err(e);
            },
        };
        let timestamp = match now_millis() {
            Some(t) => t,
            None => {
                return Err(LedgerError::Clock);
            },
        };
        match Block::new_at(transactions, self.curr_hash.clone(), height, timestamp) {
            Err(e) => Err(e),
            Ok(block) => {
                self.seal(&block);
                Ok(block)
            },
        }
    }

    /// Mines a block of `transactions` on top of the head, stamped with
    /// `timestamp`, stores it and makes it the head. Where it fails the chain
    /// is left as it was.
    ///
    /// Fails as [`next_height`] says where the transactions cannot be taken,
    /// with `Encoding` exactly where mining breaks on something that cannot
    /// be encoded, and with `NonceExhausted` exactly where no nonce seals the
    /// block.
    pub fn mine_block_at(&mut self, transactions: Vec<Transaction>, timestamp: u128) -> (mined:
        Result<Block, LedgerError>)
        ensures
            match mined {
                Ok(block) => {
                    &&& next_height(old(self)@, transactions_view(transactions@)) is Ok
                    &&& mined_from(
                        block@,
                        transactions_view(transactions@),
                        old(self)@.head,
                        next_height(old(self)@, transactions_view(transactions@)).unwrap(),
                        timestamp,
                    )
                    &&& final(self)@ == extended(old(self)@, block@)
                },
                Err(e) => {
                    &&& final(self)@ == old(self)@
                    &&& match next_height(old(self)@, transactions_view(transactions@)) {
                        Err(refusal) => e == refusal,
                        Ok(height) => mining_fails(
                            unsealed(
                                transactions_view(transactions@),
                                old(self)@.head,
                                height,
                                timestamp,
                            ),
                            e,
                        ),
                    }
                },
            },
    {
        let height = match self.prepare_block(&transactions) {
            Ok(height) => height,
            Err(e) => {
                return Err(e);
            },
        };
        match Block::new_at(transactions, self.curr_hash.clone(), height, timestamp) {
            Err(e) => Err(e),
            Ok(block) => {
                self.seal(&block);
                Ok(block)
            },
        }
    }
}

/// Once an input names no transaction of the chain, the priors stay missing.
pub proof fn lemma_priors_stay_missing(c: ChainView, tx: TransactionView, k: nat, n: nat)
    requires
        k <= n,
        priors_in_chain(c, tx, k) is None,
    ensures
        priors_in_chain(c, tx, n) is None,
    decreases n - k,
{
    if k < n {
        lemma_priors_stay_missing(c, tx, k, (n - 1) as nat);
    }
}

/// One step more moves the end of a walk that is still going to the
/// predecessor of the block it stood at.
pub proof fn lemma_walk_end_step(blocks: Seq<BlockView>, hash: Seq<char>, done: nat)
    requires
        walk(blocks, hash, done).len() == done,
    ensures
        match find_block(blocks, walk_end(blocks, hash, done)) {
            Some(b) => walk_end(blocks, hash, done + 1) == b.prev_hash && walk(
                blocks,
                hash,
                done + 1,
            ).len() == done + 1,
            None => walk_end(blocks, hash, done + 1) == walk_end(blocks, hash, done) && walk(
                blocks,
                hash,
                done + 1,
            ).len() == done,
        },
    decreases done,
{
    reveal_with_fuel(walk, 2);
    reveal_with_fuel(walk_end, 2);
    if done > 0 {
        match find_block(blocks, hash) {
            None => {},
            Some(b) => {
                assert(walk(blocks, hash, done) == seq![b] + walk(
                    blocks,
                    b.prev_hash,
                    (done - 1) as nat,
                ));
                lemma_walk_end_step(blocks, b.prev_hash, (done - 1) as nat);
                assert(walk(blocks, hash, done + 1) == seq![b] + walk(
                    blocks,
                    b.prev_hash,
                    done,
                ));
                assert(walk_end(blocks, hash, done + 1) == walk_end(blocks, b.prev_hash, done));
                assert(walk_end(blocks, hash, done) == walk_end(
                    blocks,
                    b.prev_hash,
                    (done - 1) as nat,
                ));
            },
        }
    }
}

} // verus!
