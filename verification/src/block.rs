//! Blocks, their Merkle commitment to the transactions they hold, and the
//! proof of work that seals them.

use crate::clock::now_millis;
use crate::codec::{
    encode_header, header_bytes, BlockFields, BlockParts, TransactionFields, TransactionParts,
};
use crate::constants::{DIFFICULTY, VERSION};
use crate::digest::{hex_text, sha256, sha256_hex};
use crate::error::LedgerError;
use crate::mergetx::{build_merkle_root, leaves_view, merkle_root};
use crate::transaction::{
    clone_transactions, digest_of, transaction_fields, transaction_of_fields, transactions_view,
    Transaction, TransactionView,
};
use vstd::prelude::*;
use vstd::string::StrSliceExecFns;
use vstd::utf8::encode_utf8;

verus! {

/// What one attempt at the proof of work gave.
#[derive(Debug)]
pub enum MiningResponse {
    /// The digest has the required shape; it is carried here.
    Success(String),
    /// The digest has not.
    Failure,
}

/// A sealed set of transactions, linked to its predecessor by that block's
/// hash.
#[derive(Debug)]
pub struct Block {
    timestamp: u128,
    hash: String,
    hash_prev_block: String,
    transactions: Vec<Transaction>,
    nonce: i32,
    height: i32,
    version: i8,
    difficulty: u32,
}

/// A block as contracts speak of it.
pub struct BlockView {
    /// Milliseconds since the Unix epoch at which the block was made.
    pub timestamp: u128,
    pub hash: Seq<char>,
    /// Hash of the predecessor; empty in the genesis block.
    pub prev_hash: Seq<char>,
    pub transactions: Seq<TransactionView>,
    pub nonce: i32,
    /// Distance from the genesis block, which has height 0.
    pub height: i32,
    pub version: i8,
    pub difficulty: u32,
}

impl View for Block {
    type V = BlockView;

    closed spec fn view(&self) -> BlockView {
        BlockView {
            timestamp: self.timestamp,
            hash: self.hash@,
            prev_hash: self.hash_prev_block@,
            transactions: transactions_view(self.transactions@),
            nonce: self.nonce,
            height: self.height,
            version: self.version,
            difficulty: self.difficulty,
        }
    }
}

/// Every transaction has a digest.
pub open spec fn all_digestible(txs: Seq<TransactionView>) -> bool {
    forall|i: int| 0 <= i < txs.len() ==> digest_of(#[trigger] txs[i]) is Some
}

/// The leaves of the Merkle tree: for each transaction the text of its
/// digest, as bytes.
pub open spec fn leaves_of(txs: Seq<TransactionView>) -> Seq<Seq<u8>> {
    txs.map_values(|t: TransactionView| encode_utf8(digest_of(t).unwrap()))
}

/// The Merkle root over the digests of `txs`; nothing where one of them has
/// no digest.
pub open spec fn transactions_root(txs: Seq<TransactionView>) -> Option<Seq<u8>> {
    if all_digestible(txs) {
        Some(merkle_root(leaves_of(txs)))
    } else {
        None
    }
}

/// The part of a block that does not change while it is mined.
pub struct Header {
    pub prev_hash: Seq<char>,
    pub root: Seq<u8>,
    pub timestamp: u128,
    pub difficulty: u32,
}

/// Digest of a header with `nonce`: SHA-256 over the canonical encoding of
/// previous hash, Merkle root, timestamp, difficulty and nonce, as
/// hexadecimal text.
pub open spec fn header_digest(header: Header, nonce: i32) -> Option<Seq<char>> {
    match header_bytes(
        header.prev_hash,
        header.root,
        header.timestamp,
        header.difficulty,
        nonce,
    ) {
        Some(bytes) => Some(hex_text(sha256(bytes))),
        None => None,
    }
}

/// The first `difficulty` characters of `hash` are all `'0'`.
pub open spec fn meets_difficulty(hash: Seq<char>, difficulty: u32) -> bool {
    hash.len() >= difficulty && forall|i: int| 0 <= i < difficulty ==> hash[i] == '0'
}

/// The digest of `header` with `nonce` exists and falls short of the
/// difficulty: mining goes on to the next nonce.
pub open spec fn keeps_going(header: Header, nonce: i32) -> bool {
    match header_digest(header, nonce) {
        Some(d) => !meets_difficulty(d, header.difficulty),
        None => false,
    }
}

/// Mining goes on at every nonce from `from` up to, but not including, `to`.
pub open spec fn no_stop_between(header: Header, from: int, to: int) -> bool {
    forall|m: int| from <= m < to && m <= i32::MAX ==> keeps_going(header, #[trigger] (m as i32))
}

/// The header that the stored fields of a block stand for, where its
/// transactions have a Merkle root.
pub open spec fn header_of(block: BlockView) -> Option<Header> {
    match transactions_root(block.transactions) {
        Some(root) => Some(
            Header {
                prev_hash: block.prev_hash,
                root,
                timestamp: block.timestamp,
                difficulty: block.difficulty,
            },
        ),
        None => None,
    }
}

/// The digest re-derived from the stored fields of a block.
pub open spec fn block_digest(block: BlockView) -> Option<Seq<char>> {
    match header_of(block) {
        Some(header) => header_digest(header, block.nonce),
        None => None,
    }
}

/// A block is sealed when its hash is the digest re-derived from its stored
/// fields and that hash meets the block's difficulty.
pub open spec fn is_sealed(block: BlockView) -> bool {
    block_digest(block) == Some(block.hash) && meets_difficulty(block.hash, block.difficulty)
}

/// `block` is what mining gives for the transactions `txs` on top of
/// `prev_hash`, at `height` and `timestamp`: it is sealed, and its nonce is
/// the least from 0 on at which it can be.
pub open spec fn mined_from(
    block: BlockView,
    txs: Seq<TransactionView>,
    prev_hash: Seq<char>,
    height: i32,
    timestamp: u128,
) -> bool {
    &&& block.transactions == txs
    &&& block.prev_hash == prev_hash
    &&& block.height == height
    &&& block.timestamp == timestamp
    &&& block.version == VERSION
    &&& block.difficulty == DIFFICULTY
    &&& block.nonce >= 0
    &&& is_sealed(block)
    &&& no_stop_between(header_of(block).unwrap(), 0, block.nonce as int)
}

/// Mining from nonce `from` on ends without a block because something cannot
/// be encoded: the transactions have no Merkle root, or the first nonce at
/// which mining does not go on is one whose header has no digest.
pub open spec fn mining_breaks(block: BlockView, from: int) -> bool {
    match header_of(block) {
        None => true,
        Some(header) => exists|n: int|
            from <= n <= i32::MAX && no_stop_between(header, from, n) && header_digest(
                header,
                #[trigger] (n as i32),
            ) is None,
    }
}

/// Mining from nonce `from` on runs out of nonces: it goes on at every one.
pub open spec fn mining_exhausts(block: BlockView, from: int) -> bool {
    match header_of(block) {
        None => false,
        Some(header) => no_stop_between(header, from, i32::MAX + 1),
    }
}

/// The block as the tuple that is encoded.
pub open spec fn block_fields(block: BlockView) -> BlockFields {
    (
        block.timestamp,
        block.hash,
        block.prev_hash,
        block.transactions.map_values(|t: TransactionView| transaction_fields(t)),
        block.nonce,
        block.height,
        block.version,
        block.difficulty,
    )
}

/// The block that an encoded tuple stands for.
pub open spec fn block_of_fields(fields: BlockFields) -> BlockView {
    BlockView {
        timestamp: fields.0,
        hash: fields.1,
        prev_hash: fields.2,
        transactions: fields.3.map_values(|t: TransactionFields| transaction_of_fields(t)),
        nonce: fields.4,
        height: fields.5,
        version: fields.6,
        difficulty: fields.7,
    }
}

/// A block that is about to be mined on top of the block with hash `head`.
pub open spec fn unsealed(
    txs: Seq<TransactionView>,
    head: Seq<char>,
    height: i32,
    timestamp: u128,
) -> BlockView {
    BlockView {
        timestamp,
        hash: Seq::empty(),
        prev_hash: head,
        transactions: txs,
        nonce: 0,
        height,
        version: VERSION,
        difficulty: DIFFICULTY,
    }
}

/// Mining `block` from nonce 0 on fails with `e`: with `Encoding` where it
/// breaks on something that cannot be encoded, with `NonceExhausted` where no
/// nonce seals the block.
pub open spec fn mining_fails(block: BlockView, e: LedgerError) -> bool {
    ||| e == LedgerError::Encoding && mining_breaks(block, 0)
    ||| e == LedgerError::NonceExhausted && mining_exhausts(block, 0)
}

/// Whether the first `difficulty` characters of `hash` are all `'0'`.
pub fn has_leading_zeros(hash: &String, difficulty: u32) -> (ok: bool)
    ensures
        ok == meets_difficulty(hash@, difficulty),
{
    let n: usize = hash.as_str().unicode_len();
    if n < difficulty as usize {
        return false;
    }
    let mut i: usize = 0;
    while i < difficulty as usize
        invariant
            n == hash@.len(),
            difficulty <= n,
            i <= difficulty,
            forall|k: int| 0 <= k < i ==> hash@[k] == '0',
        decreases difficulty - i,
    {
        if hash.as_str().get_char(i) != '0' {
            return false;
        }
        i = i + 1;
    }
    true
}

/// One attempt at the proof of work: the digest of the header with `nonce`,
/// and whether it meets the difficulty.
fn attempt(
    prev_hash: &String,
    root: &Vec<u8>,
    timestamp: u128,
    difficulty: u32,
    nonce: i32,
) -> (outcome: Result<MiningResponse, LedgerError>)
    ensures
        match outcome {
            Ok(MiningResponse::Success(h)) => header_digest(
                Header { prev_hash: prev_hash@, root: root@, timestamp, difficulty },
                nonce,
            ) == Some(h@) && meets_difficulty(h@, difficulty),
            Ok(MiningResponse::Failure) => keeps_going(
                Header { prev_hash: prev_hash@, root: root@, timestamp, difficulty },
                nonce,
            ),
            Err(e) => e == LedgerError::Encoding && header_digest(
                Header { prev_hash: prev_hash@, root: root@, timestamp, difficulty },
                nonce,
            ) is None,
        },
{
    match encode_header(prev_hash, root, timestamp, difficulty, nonce) {
        None => Err(LedgerError::Encoding),
        Some(bytes) => {
            let digest = sha256_hex(bytes.as_slice());
            if has_leading_zeros(&digest, difficulty) {
                Ok(MiningResponse::Success(digest))
            } else {
                Ok(MiningResponse::Failure)
            }
        },
    }
}

impl Clone for Block {
    fn clone(&self) -> (copy: Self)
        ensures
            copy@ == self@,
    {
        Block {
            timestamp: self.timestamp,
            hash: self.hash.clone(),
            hash_prev_block: self.hash_prev_block.clone(),
            transactions: clone_transactions(&self.transactions),
            nonce: self.nonce,
            height: self.height,
            version: self.version,
            difficulty: self.difficulty,
        }
    }
}

impl Block {
    /// The block as the tuple that is encoded.
    pub fn to_parts(&self) -> (parts: BlockParts)
        ensures
            parts.deep_view() == block_fields(self@),
    {
        let mut txs: Vec<TransactionParts> = Vec::new();
        let mut i: usize = 0;
        while i < self.transactions.len()
            invariant
                i <= self.transactions@.len(),
                txs@.len() == i,
                forall|k: int|
                    0 <= k < i ==> (#[trigger] txs@[k]).deep_view() == transaction_fields(
                        self.transactions@[k]@,
                    ),
            decreases self.transactions@.len() - i,
        {
            txs.push(self.transactions[i].to_parts());
            i = i + 1;
        }
        let parts = (
            self.timestamp,
            self.hash.clone(),
            self.hash_prev_block.clone(),
            txs,
            self.nonce,
            self.height,
            self.version,
            self.difficulty,
        );
        proof {
            assert(parts.3.deep_view() =~= block_fields(self@).3);
        }
        parts
    }

    /// The block that a decoded tuple stands for. Nothing is checked: the
    /// block is as valid as the tuple was.
    pub fn from_parts(parts: &BlockParts) -> (block: Block)
        ensures
            block@ == block_of_fields(parts.deep_view()),
    {
        let mut transactions: Vec<Transaction> = Vec::new();
        let mut i: usize = 0;
        while i < parts.3.len()
            invariant
                i <= parts.3@.len(),
                transactions@.len() == i,
                forall|k: int|
                    0 <= k < i ==> (#[trigger] transactions@[k])@ == transaction_of_fields(
                        parts.3@[k].deep_view(),
                    ),
            decreases parts.3@.len() - i,
        {
            transactions.push(Transaction::from_parts(&parts.3[i]));
            i = i + 1;
        }
        let block = Block {
            timestamp: parts.0,
            hash: parts.1.clone(),
            hash_prev_block: parts.2.clone(),
            transactions,
            nonce: parts.4,
            height: parts.5,
            version: parts.6,
            difficulty: parts.7,
        };
        proof {
            assert(block@.transactions =~= block_of_fields(parts.deep_view()).transactions);
        }
        block
    }

    /// Reads the clock and mines a block as [`Block::new_at`] does with the
    /// time read. Fails with `Clock` where the clock stands before the epoch.
    pub fn new(transactions: Vec<Transaction>, hash_prev_block: String, height: i32) -> (made:
        Result<Block, LedgerError>)
        ensures
            match made {
                Ok(block) => mined_from(
                    block@,
                    transactions_view(transactions@),
                    hash_prev_block@,
                    height,
                    block@.timestamp,
                ),
                Err(e) => e == LedgerError::Clock || exists|timestamp: u128|
                    #[trigger] mining_fails(
                        unsealed(
                            transactions_view(transactions@),
                            hash_prev_block@,
                            height,
                            timestamp,
                        ),
                        e,
                    ),
            },
    {
        match now_millis() {
            None => Err(LedgerError::Clock),
            Some(timestamp) => Block::new_at(transactions, hash_prev_block, height, timestamp),
        }
    }

    /// Builds the block that holds `transactions` on top of the block with
    /// hash `hash_prev_block`, and mines it: the nonce is raised from 0 until
    /// the digest of the header meets the difficulty.
    ///
    /// Fails with `Encoding` exactly where mining breaks on something that
    /// cannot be encoded, and with `NonceExhausted` exactly where no nonce
    /// seals the block.
    pub fn new_at(
        transactions: Vec<Transaction>,
        hash_prev_block: String,
        height: i32,
        timestamp: u128,
    ) -> (made: Result<Block, LedgerError>)
        ensures
            match made {
                Ok(block) => mined_from(
                    block@,
                    transactions_view(transactions@),
                    hash_prev_block@,
                    height,
                    timestamp,
                ),
                Err(e) => mining_fails(
                    unsealed(transactions_view(transactions@), hash_prev_block@, height, timestamp),
                    e,
                ),
            },
    {
        let mut block = Block {
            timestamp,
            hash: String::new(),
            hash_prev_block,
            transactions,
            nonce: 0,
            height,
            version: VERSION,
            difficulty: DIFFICULTY,
        };
        match block.mine() {
            Ok(()) => Ok(block),
            Err(e) => Err(e),
        }
    }

    /// The transactions the block holds.
    pub fn get_transaction(&self) -> (txs: &Vec<Transaction>)
        ensures
            transactions_view(txs@) == self@.transactions,
    {
        &self.transactions
    }

    /// The hash that seals the block.
    pub fn get_hash(&self) -> (hash: String)
        ensures
            hash@ == self@.hash,
    {
        self.hash.clone()
    }

    /// The hash of the predecessor; empty for the genesis block.
    pub fn get_prev_block_hash(&self) -> (hash: String)
        ensures
            hash@ == self@.prev_hash,
    {
        self.hash_prev_block.clone()
    }

    /// The height of the block.
    pub fn get_height(&self) -> (height: i32)
        ensures
            height == self@.height,
    {
        self.height
    }

    /// The time the block was made at, in milliseconds since the epoch.
    pub fn get_timestamp(&self) -> (timestamp: u128)
        ensures
            timestamp == self@.timestamp,
    {
        self.timestamp
    }

    /// The nonce the block was sealed with.
    pub fn get_nonce(&self) -> (nonce: i32)
        ensures
            nonce == self@.nonce,
    {
        self.nonce
    }

    /// The genesis block: height 0, no predecessor, `coinbase` as its only
    /// transaction, mined at the time the clock gives.
    pub fn new_genesis_block(coinbase: Transaction) -> (made: Result<Block, LedgerError>)
        ensures
            match made {
                Ok(block) => mined_from(
                    block@,
                    seq![coinbase@],
                    Seq::empty(),
                    0,
                    block@.timestamp,
                ),
                Err(e) => e == LedgerError::Clock || exists|timestamp: u128|
                    #[trigger] mining_fails(
                        unsealed(seq![coinbase@], Seq::empty(), 0, timestamp),
                        e,
                    ),
            },
    {
        let mut txs: Vec<Transaction> = Vec::new();
        txs.push(coinbase);
        assert(transactions_view(txs@) =~= seq![coinbase@]);
        Block::new(txs, String::new(), 0)
    }

    /// Raises the nonce from where it stands until the digest of the header
    /// meets the difficulty, and seals the block with that digest. Where
    /// mining fails the block is left as it was.
    pub fn mine(&mut self) -> (done: Result<(), LedgerError>)
        ensures
            final(self)@.timestamp == old(self)@.timestamp,
            final(self)@.prev_hash == old(self)@.prev_hash,
            final(self)@.transactions == old(self)@.transactions,
            final(self)@.height == old(self)@.height,
            final(self)@.version == old(self)@.version,
            final(self)@.difficulty == old(self)@.difficulty,
            match done {
                Ok(()) => {
                    &&& is_sealed(final(self)@)
                    &&& final(self)@.nonce >= old(self)@.nonce
                    &&& no_stop_between(
                        header_of(old(self)@).unwrap(),
                        old(self)@.nonce as int,
                        final(self)@.nonce as int,
                    )
                },
                Err(e) => {
                    &&& final(self)@ == old(self)@
                    &&& e == LedgerError::Encoding && mining_breaks(
                        old(self)@,
                        old(self)@.nonce as int,
                    ) || e == LedgerError::NonceExhausted && mining_exhausts(
                        old(self)@,
                        old(self)@.nonce as int,
                    )
                },
            },
    {
        let root = match self.hash_transactions() {
            Ok(root) => root,
            Err(e) => {
                return Err(e);
            },
        };
        let ghost header = header_of(self@).unwrap();
        let mut nonce: i32 = self.nonce;
        loop
            invariant
                self@ == old(self)@,
                header_of(self@) == Some(header),
                header.root == root@,
                header.prev_hash == self.hash_prev_block@,
                header.timestamp == self.timestamp,
                header.difficulty == self.difficulty,
                self.nonce <= nonce,
                no_stop_between(header, self.nonce as int, nonce as int),
            decreases i32::MAX - nonce,
        {
            match attempt(&self.hash_prev_block, &root, self.timestamp, self.difficulty, nonce) {
                Err(e) => {
                    proof {
                        let n = nonce as int;
                        assert(header == Header {
                            prev_hash: self.hash_prev_block@,
                            root: root@,
                            timestamp: self.timestamp,
                            difficulty: self.difficulty,
                        });
                        assert(header_digest(header, n as i32) is None);
                        assert(mining_breaks(old(self)@, old(self)@.nonce as int));
                    }
                    return Err(e);
                },
                Ok(MiningResponse::Success(valid_hash)) => {
                    self.hash = valid_hash;
                    self.nonce = nonce;
                    return Ok(());
                },
                Ok(MiningResponse::Failure) => {
                    if nonce == i32::MAX {
                        return Err(LedgerError::NonceExhausted);
                    }
                    nonce = nonce + 1;
                },
            }
        }
    }

    /// The bytes that are hashed for the block as it stands: the canonical
    /// encoding of previous hash, Merkle root, timestamp, difficulty and
    /// nonce.
    pub fn prepare_hash_data(&self) -> (data: Result<Vec<u8>, LedgerError>)
        ensures
            match data {
                Ok(bytes) => header_of(self@) is Some && header_bytes(
                    self@.prev_hash,
                    header_of(self@).unwrap().root,
                    self@.timestamp,
                    self@.difficulty,
                    self@.nonce,
                ) == Some(bytes@),
                Err(e) => e == LedgerError::Encoding && block_digest(self@) is None,
            },
    {
        let root = match self.hash_transactions() {
            Ok(root) => root,
            Err(e) => {
                return Err(e);
            },
        };
        match encode_header(
            &self.hash_prev_block,
            &root,
            self.timestamp,
            self.difficulty,
            self.nonce,
        ) {
            Some(bytes) => Ok(bytes),
            None => Err(LedgerError::Encoding),
        }
    }

    /// The Merkle root over the digests of the block's transactions. Fails,
    /// with `Encoding`, exactly where one of them has no digest.
    pub fn hash_transactions(&self) -> (root: Result<Vec<u8>, LedgerError>)
        ensures
            match root {
                Ok(r) => transactions_root(self@.transactions) == Some(r@),
                Err(e) => e == LedgerError::Encoding && transactions_root(self@.transactions)
                    is None,
            },
    {
        let mut leaves: Vec<Vec<u8>> = Vec::new();
        let mut i: usize = 0;
        while i < self.transactions.len()
            invariant
                i <= self.transactions@.len(),
                leaves@.len() == i,
                forall|k: int| 0 <= k < i ==> digest_of(#[trigger] self@.transactions[k]) is Some,
                forall|k: int|
                    0 <= k < i ==> #[trigger] leaves@[k]@ == leaves_of(self@.transactions)[k],
            decreases self.transactions@.len() - i,
        {
            match self.transactions[i].hash() {
                Err(e) => {
                    assert(digest_of(self@.transactions[i as int]) is None);
                    return Err(e);
                },
                Ok(digest) => {
                    leaves.push(digest.as_str().as_bytes_vec());
                },
            }
            i = i + 1;
        }
        assert(leaves_view(leaves@) =~= leaves_of(self@.transactions));
        Ok(build_merkle_root(&leaves))
    }

    /// One attempt at the proof of work on the block as it stands: derives
    /// the digest from the stored fields and tells whether it meets the
    /// difficulty.
    pub fn validate(&self) -> (outcome: Result<MiningResponse, LedgerError>)
        ensures
            match outcome {
                Ok(MiningResponse::Success(h)) => block_digest(self@) == Some(h@)
                    && meets_difficulty(h@, self@.difficulty),
                Ok(MiningResponse::Failure) => block_digest(self@) is Some && !meets_difficulty(
                    block_digest(self@).unwrap(),
                    self@.difficulty,
                ),
                Err(e) => e == LedgerError::Encoding && block_digest(self@) is None,
            },
    {
        let root = match self.hash_transactions() {
            Ok(root) => root,
            Err(e) => {
                return Err(e);
            },
        };
        attempt(&self.hash_prev_block, &root, self.timestamp, self.difficulty, self.nonce)
    }

    /// Whether the block is sealed: its hash is the digest re-derived from
    /// its stored fields, and meets its difficulty.
    pub fn is_valid(&self) -> (ok: bool)
        ensures
            ok == is_sealed(self@),
    {
        match self.validate() {
            Ok(MiningResponse::Success(h)) => h == self.hash,
            _ => false,
        }
    }
}

} // verus!
