use pow_ledger::block::{Block, MiningResponse};
use pow_ledger::blockchain::Blockchain;
use pow_ledger::constants::DIFFICULTY;
use pow_ledger::error::LedgerError;
use pow_ledger::transaction::Transaction;
use pow_ledger::wallet::Wallet;
use sha2::{Digest, Sha256};

fn address_of_seed(seed: u8) -> (Wallet, String) {
    let wallet = Wallet::from_seed(&[seed; 32]);
    let address = wallet.get_address();
    (wallet, address)
}

fn hex(bytes: &[u8]) -> String {
    let mut text = String::new();
    for b in bytes {
        text.push_str(&format!("{:02x}", b));
    }
    text
}

fn sha256_hex(bytes: &[u8]) -> String {
    hex(&Sha256::digest(bytes))
}

fn sha256_raw(bytes: &[u8]) -> Vec<u8> {
    Sha256::digest(bytes).to_vec()
}

fn chain_of_three(address: &str) -> Blockchain {
    let mut chain = Blockchain::create_blockchain(address.to_string()).unwrap();
    for memo in ["block 1", "block 2"] {
        let coinbase = Transaction::new_coinbase(address.to_string(), memo.to_string()).unwrap();
        chain.mine_block(vec![coinbase]).unwrap();
    }
    chain
}

#[test]
fn mined_genesis_block_has_leading_zeros() {
    let (_, address) = address_of_seed(1);
    let coinbase = Transaction::new_coinbase(address, String::from("genesis")).unwrap();
    let block = Block::new_genesis_block(coinbase).unwrap();
    assert_eq!(DIFFICULTY, 4);
    assert_eq!(&block.get_hash()[0..4], "0000");
    assert_eq!(block.get_hash().len(), 64);
    assert_eq!(block.get_height(), 0);
    assert_eq!(block.get_prev_block_hash(), "");
    assert!(block.is_valid());
}

#[test]
fn mined_block_hash_is_the_digest_of_its_header() {
    let (_, address) = address_of_seed(1);
    let coinbase = Transaction::new_coinbase(address, String::from("genesis")).unwrap();
    let block = Block::new_at(vec![coinbase], String::from("abc"), 7, 1_700_000_000_000).unwrap();
    assert_eq!(block.get_timestamp(), 1_700_000_000_000);
    assert_eq!(block.get_height(), 7);
    let root = block.hash_transactions().unwrap();
    let header = bincode::serialize(&(
        String::from("abc"),
        root,
        1_700_000_000_000u128,
        4u32,
        block.get_nonce(),
    ))
    .unwrap();
    assert_eq!(block.prepare_hash_data().unwrap(), header);
    assert_eq!(block.get_hash(), sha256_hex(&header));
    match block.validate().unwrap() {
        MiningResponse::Success(hash) => assert_eq!(hash, block.get_hash()),
        MiningResponse::Failure => panic!("a mined block must validate"),
    }
}

#[test]
fn mining_takes_the_least_nonce() {
    let (_, address) = address_of_seed(1);
    let coinbase = Transaction::new_coinbase(address, String::from("least")).unwrap();
    let block = Block::new_at(vec![coinbase], String::new(), 0, 42).unwrap();
    let root = block.hash_transactions().unwrap();
    assert!(block.get_nonce() >= 0);
    for nonce in 0..block.get_nonce() {
        let header =
            bincode::serialize(&(String::new(), root.clone(), 42u128, 4u32, nonce)).unwrap();
        assert_ne!(&sha256_hex(&header)[0..4], "0000");
    }
}

#[test]
fn mining_is_a_function_of_its_inputs() {
    let (_, address) = address_of_seed(1);
    let one = Transaction::new_coinbase(address.clone(), String::from("same")).unwrap();
    let two = Transaction::new_coinbase(address, String::from("same")).unwrap();
    let first = Block::new_at(vec![one], String::new(), 0, 99).unwrap();
    let second = Block::new_at(vec![two], String::new(), 0, 99).unwrap();
    assert_eq!(first.get_hash(), second.get_hash());
    assert_eq!(first.get_nonce(), second.get_nonce());
}

#[test]
fn block_read_from_the_clock_carries_a_recent_time() {
    let (_, address) = address_of_seed(1);
    let coinbase = Transaction::new_coinbase(address, String::from("clock")).unwrap();
    let block = Block::new(vec![coinbase], String::new(), 0).unwrap();
    // After 2020-01-01 in milliseconds since the epoch.
    assert!(block.get_timestamp() > 1_577_836_800_000);
}

#[test]
fn merkle_root_of_one_transaction_is_its_leaf() {
    let (_, address) = address_of_seed(1);
    let coinbase = Transaction::new_coinbase(address, String::from("one")).unwrap();
    let leaf = coinbase.hash().unwrap().into_bytes();
    let block = Block::new_at(vec![coinbase], String::new(), 0, 1).unwrap();
    assert_eq!(block.hash_transactions().unwrap(), leaf);
}

#[test]
fn merkle_root_of_two_transactions_hashes_both_leaves() {
    let (_, address) = address_of_seed(1);
    let a = Transaction::new_coinbase(address.clone(), String::from("a")).unwrap();
    let b = Transaction::new_coinbase(address, String::from("b")).unwrap();
    let mut joined = a.hash().unwrap().into_bytes();
    joined.extend(b.hash().unwrap().into_bytes());
    let block = Block::new_at(vec![a, b], String::new(), 0, 1).unwrap();
    assert_eq!(block.hash_transactions().unwrap(), sha256_raw(&joined));
}

#[test]
fn merkle_root_of_three_transactions_follows_the_tree_layout() {
    let (_, address) = address_of_seed(1);
    let txs: Vec<Transaction> = ["a", "b", "c"]
        .iter()
        .map(|memo| Transaction::new_coinbase(address.clone(), memo.to_string()).unwrap())
        .collect();
    let leaves: Vec<Vec<u8>> = txs.iter().map(|tx| tx.hash().unwrap().into_bytes()).collect();
    // Five nodes: the leaves stand at 2, 3 and 4; node 1 joins 3 and 4; the
    // root joins 1 and 2.
    let mut inner = leaves[1].clone();
    inner.extend(leaves[2].clone());
    let mut top = sha256_raw(&inner);
    top.extend(leaves[0].clone());
    let block = Block::new_at(txs, String::new(), 0, 1).unwrap();
    assert_eq!(block.hash_transactions().unwrap(), sha256_raw(&top));
}

#[test]
fn tampering_with_a_block_breaks_its_seal() {
    let (_, address) = address_of_seed(1);
    let coinbase = Transaction::new_coinbase(address.clone(), String::from("x")).unwrap();
    let block = Block::new_at(vec![coinbase], String::new(), 0, 5).unwrap();
    let mut parts = block.to_parts();
    assert!(Block::from_parts(&parts).is_valid());
    parts.3[0].2[0].0 += 1;
    assert!(!Block::from_parts(&parts).is_valid());
}

#[test]
fn created_chain_holds_one_block() {
    let (_, address) = address_of_seed(2);
    let chain = Blockchain::create_blockchain(address).unwrap();
    assert_eq!(chain.block_count(), 1);
    assert_eq!(chain.get_best_height(), 0);
    assert_eq!(chain.get_block_hashs(), vec![chain.get_curr_hash()]);
    let genesis = chain.get_block(&chain.get_curr_hash()).unwrap();
    assert_eq!(genesis.get_transaction().len(), 1);
    assert!(genesis.get_transaction()[0].is_coinbase());
    assert_eq!(
        genesis.get_transaction()[0].input[0].pub_key,
        "Some data for genesis block".as_bytes()
    );
}

#[test]
fn creating_a_chain_for_no_address_fails() {
    assert_eq!(
        Blockchain::create_blockchain(String::from("not an address")).err(),
        Some(LedgerError::InvalidAddress)
    );
}

#[test]
fn empty_chain_has_no_height_and_cannot_be_mined_on() {
    let (_, address) = address_of_seed(2);
    let mut chain = Blockchain::new();
    assert_eq!(chain.get_best_height(), -1);
    assert!(chain.get_block_hashs().is_empty());
    let coinbase = Transaction::new_coinbase(address, String::from("x")).unwrap();
    assert_eq!(chain.mine_block(vec![coinbase]).err(), Some(LedgerError::NoHead));
    assert_eq!(chain.get_block("nothing").err(), Some(LedgerError::BlockNotFound));
}

#[test]
fn chain_walk_reaches_genesis_in_height_plus_one_steps() {
    let (_, address) = address_of_seed(3);
    let chain = chain_of_three(&address);
    let hashes = chain.get_block_hashs();
    assert_eq!(hashes.len() as i32, chain.get_best_height() + 1);
    let mut expected = chain.get_curr_hash();
    for (step, hash) in hashes.iter().enumerate() {
        assert_eq!(*hash, expected);
        let block = chain.get_block(hash).unwrap();
        assert_eq!(block.get_height(), 2 - step as i32);
        assert!(block.is_valid());
        expected = block.get_prev_block_hash();
    }
    assert_eq!(expected, "");
}

#[test]
fn chain_walk_can_be_started_again() {
    let (_, address) = address_of_seed(3);
    let chain = chain_of_three(&address);
    let mut first = chain.iter();
    let mut second = chain.iter();
    let a = first.next().unwrap().get_hash();
    let b = second.next().unwrap().get_hash();
    assert_eq!(a, b);
    assert_eq!(a, chain.get_curr_hash());
}

#[test]
fn restored_chain_is_the_chain_that_was_stored() {
    let (_, address) = address_of_seed(3);
    let chain = chain_of_three(&address);
    let hashes = chain.get_block_hashs();
    let blocks: Vec<Block> =
        hashes.iter().rev().map(|hash| chain.get_block(hash).unwrap()).collect();
    let restored = Blockchain::restore(chain.get_curr_hash(), blocks);
    assert_eq!(restored.get_block_hashs(), hashes);
    assert_eq!(restored.get_best_height(), 2);
}

#[test]
fn lower_block_does_not_move_the_head() {
    let (_, address) = address_of_seed(3);
    let source = chain_of_three(&address);
    let hashes = source.get_block_hashs();
    let mut target = Blockchain::new();
    target.add_block(source.get_block(&hashes[0]).unwrap());
    assert_eq!(target.get_curr_hash(), hashes[0]);
    target.add_block(source.get_block(&hashes[2]).unwrap());
    assert_eq!(target.get_curr_hash(), hashes[0]);
    assert_eq!(target.block_count(), 2);
    // The walk ends where a predecessor is not held.
    assert_eq!(target.get_block_hashs(), vec![hashes[0].clone()]);
}

#[test]
fn find_transaction_looks_through_the_chain() {
    let (_, address) = address_of_seed(3);
    let chain = chain_of_three(&address);
    let head = chain.get_block(&chain.get_curr_hash()).unwrap();
    let id = head.get_transaction()[0].id.clone();
    assert_eq!(chain.find_transaction(&id).unwrap().id, id);
    assert_eq!(chain.find_transaction("missing").err(), Some(LedgerError::MissingPrior));
}

#[test]
fn test_blockchain_in_memory() {
    let (_, address) = address_of_seed(3);
    let chain = chain_of_three(&address);
    assert_eq!(chain.block_count(), 3);
    assert_eq!(chain.get_best_height(), 2);
}

#[test]
fn test_blockchain_db() {
    let (_, address) = address_of_seed(4);
    let chain = chain_of_three(&address);
    let mut walker = chain.iter();
    let mut heights = Vec::new();
    let mut last_prev = String::from("unset");
    while let Some(block) = walker.next() {
        heights.push(block.get_height());
        last_prev = block.get_prev_block_hash();
    }
    assert_eq!(heights, vec![2, 1, 0]);
    assert_eq!(last_prev, "");
}

#[test]
fn add_block() {
    let (_, address) = address_of_seed(5);
    let source = chain_of_three(&address);
    let hashes = source.get_block_hashs();
    let mut target = Blockchain::new();
    for hash in hashes.iter().rev() {
        target.add_block(source.get_block(hash).unwrap());
    }
    assert_eq!(target.get_best_height(), 2);
    assert_eq!(target.get_block_hashs(), hashes);
    // A block that is already held changes nothing.
    target.add_block(source.get_block(&hashes[1]).unwrap());
    assert_eq!(target.block_count(), 3);
    assert_eq!(target.get_curr_hash(), hashes[0]);
}

#[test]
fn blockchain_test_blockchain_in_memory() {
    let (_, address) = address_of_seed(6);
    let mut chain = Blockchain::create_blockchain(address.clone()).unwrap();
    for (round, memo) in ["block 0", "block 1", "block 2"].iter().enumerate() {
        let coinbase = Transaction::new_coinbase(address.clone(), memo.to_string()).unwrap();
        let block = chain.mine_block(vec![coinbase]).unwrap();
        assert_eq!(block.get_height(), round as i32 + 1);
        assert_eq!(chain.get_curr_hash(), block.get_hash());
    }
    assert_eq!(chain.block_count(), 4);
}

#[test]
fn blockchain_test_blockchain_db() {
    let (_, address) = address_of_seed(7);
    let chain = chain_of_three(&address);
    let mut walker = chain.iter();
    let mut memos = Vec::new();
    while let Some(item) = walker.next() {
        memos.push(item.get_transaction()[0].input[0].pub_key.clone());
    }
    assert_eq!(
        memos,
        vec![
            b"block 2".to_vec(),
            b"block 1".to_vec(),
            b"Some data for genesis block".to_vec()
        ]
    );
    assert!(walker.next().is_none());
}

#[test]
fn blockchain_add_block() {
    let (_, address) = address_of_seed(8);
    let mut chain = Blockchain::create_blockchain(address.clone()).unwrap();
    let coinbase = Transaction::new_coinbase(address, String::from("paid")).unwrap();
    let block = Block::new(vec![coinbase], chain.get_curr_hash(), 1).unwrap();
    chain.add_block(block.clone());
    assert_eq!(chain.get_curr_hash(), block.get_hash());
    assert_eq!(chain.get_best_height(), 1);
    println!("success!");
}

#[test]
fn block_above_the_highest_height_cannot_be_mined() {
    let (_, address) = address_of_seed(9);
    let mut chain = Blockchain::new();
    let coinbase = Transaction::new_coinbase(address.clone(), String::from("top")).unwrap();
    chain.add_block(Block::new(vec![coinbase], String::from("below"), i32::MAX).unwrap());
    assert_eq!(chain.get_best_height(), i32::MAX);
    let next = Transaction::new_coinbase(address, String::from("beyond")).unwrap();
    assert_eq!(chain.mine_block(vec![next]).err(), Some(LedgerError::Overflow));
    assert_eq!(chain.block_count(), 1);
}
