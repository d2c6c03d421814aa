use pow_ledger::address::address_to_hash;
use pow_ledger::block::Block;
use pow_ledger::blockchain::Blockchain;
use pow_ledger::blockchain_unspent_tx::Utxo;
use pow_ledger::error::LedgerError;
use pow_ledger::transaction::Transaction;
use pow_ledger::txs::{TXInput, TXOutput};
use pow_ledger::unspent_tx_util::{TxOutputs, UnspentTXUtil};
use pow_ledger::wallet::Wallet;
use pow_ledger::wallet_chain::WalletChain;

struct World {
    wallets: WalletChain,
    a: String,
    b: String,
    key_a: Vec<u8>,
    key_b: Vec<u8>,
    index: UnspentTXUtil,
}

fn world() -> World {
    let wallet_a = Wallet::from_seed(&[31u8; 32]);
    let wallet_b = Wallet::from_seed(&[32u8; 32]);
    let a = wallet_a.get_address();
    let b = wallet_b.get_address();
    let key_a = wallet_a.secret_key.clone();
    let key_b = wallet_b.secret_key.clone();
    let mut wallets = WalletChain::new();
    wallets.insert(a.clone(), wallet_a);
    wallets.insert(b.clone(), wallet_b);
    let chain = Blockchain::create_blockchain(a.clone()).unwrap();
    let index = UnspentTXUtil::new(chain);
    World { wallets, a, b, key_a, key_b, index }
}

fn balance(index: &UnspentTXUtil, address: &str) -> i128 {
    index.find_utxo(&address_to_hash(address).unwrap()).total()
}

fn listed(index: &UnspentTXUtil) -> Vec<(String, i32, i32, Vec<u8>)> {
    let mut all: Vec<(String, i32, i32, Vec<u8>)> = index
        .utxos
        .iter()
        .map(|u| (u.txid.clone(), u.vout, u.output.value, u.output.pub_key_hash.clone()))
        .collect();
    all.sort();
    all
}

fn send(w: &mut World, from_a: bool, amount: i32) -> Block {
    let (from, to, key) = if from_a {
        (w.a.clone(), w.b.clone(), w.key_a.clone())
    } else {
        (w.b.clone(), w.a.clone(), w.key_b.clone())
    };
    let mut tx = Transaction::new(&from, &to, amount, &w.index, &w.wallets).unwrap();
    w.index.chain.sign_transacton(&mut tx, &key).unwrap();
    let block = w.index.chain.mine_block(vec![tx]).unwrap();
    w.index.update(&block).unwrap();
    block
}

fn entry(txid: &str, vout: i32, value: i32, lock: &[u8]) -> Utxo {
    Utxo {
        txid: txid.to_string(),
        vout,
        output: TXOutput { value, pub_key_hash: lock.to_vec() },
    }
}

#[test]
fn genesis_reward_is_the_balance_of_its_beneficiary() {
    let w = world();
    assert_eq!(balance(&w.index, &w.a), 100);
    assert_eq!(balance(&w.index, &w.b), 0);
    assert_eq!(w.index.count_transactions(), 1);
}

#[test]
fn sending_moves_value_and_returns_change() {
    let mut w = world();
    let genesis_tx = w.index.utxos[0].txid.clone();
    let block = send(&mut w, true, 30);
    assert_eq!(balance(&w.index, &w.b), 30);
    assert_eq!(balance(&w.index, &w.a), 70);
    // The output of 100 is gone from the index.
    assert!(w.index.utxos.iter().all(|u| u.txid != genesis_tx));
    let id = block.get_transaction()[0].id.clone();
    assert_eq!(
        listed(&w.index),
        vec![
            (id.clone(), 0, 30, address_to_hash(&w.b).unwrap()),
            (id, 1, 70, address_to_hash(&w.a).unwrap()),
        ]
    );
    // More than is held cannot be sent, and nothing changes.
    let before = listed(&w.index);
    let head = w.index.chain.get_curr_hash();
    assert_eq!(
        Transaction::new(&w.a, &w.b, 200, &w.index, &w.wallets).err(),
        Some(LedgerError::InsufficientFunds)
    );
    assert_eq!(listed(&w.index), before);
    assert_eq!(w.index.chain.get_curr_hash(), head);
}

#[test]
fn updates_and_rebuild_agree() {
    let mut w = world();
    send(&mut w, true, 30);
    assert_eq!(listed(&w.index), listed(&UnspentTXUtil::new(w_chain(&w))));
    send(&mut w, false, 10);
    send(&mut w, true, 75);
    send(&mut w, false, 40);
    let updated = listed(&w.index);
    w.index.reindex();
    assert_eq!(listed(&w.index), updated);
    assert_eq!(balance(&w.index, &w.a) + balance(&w.index, &w.b), 100);
    assert_eq!(balance(&w.index, &w.b), 30 - 10 + 75 - 40);
}

fn w_chain(w: &World) -> Blockchain {
    let hashes = w.index.chain.get_block_hashs();
    let blocks: Vec<Block> =
        hashes.iter().rev().map(|h| w.index.chain.get_block(h).unwrap()).collect();
    Blockchain::restore(w.index.chain.get_curr_hash(), blocks)
}

#[test]
fn replaying_every_block_from_nothing_gives_the_rebuilt_index() {
    let mut w = world();
    send(&mut w, true, 30);
    send(&mut w, false, 5);
    let chain = w_chain(&w);
    let hashes = chain.get_block_hashs();
    let mut replayed = UnspentTXUtil { chain: Blockchain::new(), utxos: vec![] };
    for hash in hashes.iter().rev() {
        replayed.update(&chain.get_block(hash).unwrap()).unwrap();
    }
    assert_eq!(listed(&replayed), listed(&UnspentTXUtil::new(chain)));
}

#[test]
fn coinbases_with_the_same_id_are_spent_together_by_a_rebuild() {
    // Two coinbases with the same memo carry the same id: once an output
    // of that id is referred to, a rebuild takes both for spent, while an
    // update lists the later one afresh.
    let mut w = world();
    let twin = Transaction::new_coinbase(w.a.clone(), String::from("twin")).unwrap();
    let first = w.index.chain.mine_block(vec![twin.clone()]).unwrap();
    w.index.update(&first).unwrap();
    let spender = Transaction {
        id: String::from("spender"),
        input: vec![TXInput {
            txid: twin.id.clone(),
            vout: 0,
            signature: vec![],
            pub_key: vec![],
        }],
        output: vec![],
    };
    let spending = Block::new(vec![spender], w.index.chain.get_curr_hash(), 2).unwrap();
    w.index.chain.add_block(spending.clone());
    w.index.update(&spending).unwrap();
    let again = Block::new(vec![twin.clone()], w.index.chain.get_curr_hash(), 3).unwrap();
    w.index.chain.add_block(again.clone());
    w.index.update(&again).unwrap();
    assert!(w.index.utxos.iter().any(|u| u.txid == twin.id));
    w.index.reindex();
    assert!(w.index.utxos.iter().all(|u| u.txid != twin.id));
}

#[test]
fn update_with_a_missing_prior_fails_and_leaves_the_index() {
    let mut w = world();
    let orphan = Transaction {
        id: String::from("orphan"),
        input: vec![TXInput {
            txid: String::from("nowhere"),
            vout: 0,
            signature: vec![],
            pub_key: vec![],
        }],
        output: vec![TXOutput { value: 1, pub_key_hash: vec![1] }],
    };
    let fine = Transaction::new_coinbase(w.a.clone(), String::from("fine")).unwrap();
    let block = Block::new(vec![fine, orphan], w.index.chain.get_curr_hash(), 1).unwrap();
    let before = listed(&w.index);
    assert_eq!(w.index.update(&block), Err(LedgerError::MissingPrior));
    assert_eq!(listed(&w.index), before);
}

#[test]
fn update_removes_the_entry_of_a_fully_spent_transaction() {
    let mut w = world();
    assert_eq!(w.index.count_transactions(), 1);
    send(&mut w, true, 100);
    assert_eq!(w.index.count_transactions(), 1);
    assert_eq!(w.index.utxos.len(), 1);
    assert_eq!(balance(&w.index, &w.a), 0);
    assert_eq!(balance(&w.index, &w.b), 100);
}

#[test]
fn selection_is_greedy_in_the_order_of_the_index() {
    let index = UnspentTXUtil {
        chain: Blockchain::new(),
        utxos: vec![
            entry("t1", 0, 10, b"me"),
            entry("t1", 1, 99, b"you"),
            entry("t2", 0, 20, b"me"),
            entry("t3", 4, 30, b"me"),
            entry("t4", 0, 40, b"me"),
        ],
    };
    assert_eq!(
        index.find_spendable_outputs(b"me", 25),
        Ok((30, vec![(String::from("t1"), 0), (String::from("t2"), 0)]))
    );
    assert_eq!(
        index.find_spendable_outputs(b"me", 30),
        Ok((30, vec![(String::from("t1"), 0), (String::from("t2"), 0)]))
    );
    assert_eq!(
        index.find_spendable_outputs(b"me", 31),
        Ok((
            60,
            vec![(String::from("t1"), 0), (String::from("t2"), 0), (String::from("t3"), 4)]
        ))
    );
    assert_eq!(index.find_spendable_outputs(b"me", 1000).unwrap().0, 100);
    assert_eq!(index.find_spendable_outputs(b"me", 0), Ok((0, vec![])));
    assert_eq!(index.find_spendable_outputs(b"nobody", 5), Ok((0, vec![])));
    assert_eq!(index.count_transactions(), 4);
}

#[test]
fn selection_that_leaves_the_range_of_amounts_fails() {
    let index = UnspentTXUtil {
        chain: Blockchain::new(),
        utxos: vec![entry("t1", 0, 1, b"me"), entry("t2", 0, i32::MAX, b"me")],
    };
    assert_eq!(index.find_spendable_outputs(b"me", i32::MAX), Err(LedgerError::Overflow));
    assert_eq!(index.find_spendable_outputs(b"me", 1), Ok((1, vec![(String::from("t1"), 0)])));
}

#[test]
fn outputs_of_a_key_are_found_in_the_order_of_the_index() {
    let index = UnspentTXUtil {
        chain: Blockchain::new(),
        utxos: vec![
            entry("t1", 0, 10, b"me"),
            entry("t1", 1, 99, b"you"),
            entry("t2", 0, 20, b"me"),
        ],
    };
    let mine = index.find_utxo(b"me");
    let values: Vec<i32> = mine.outputs.iter().map(|o| o.value).collect();
    assert_eq!(values, vec![10, 20]);
    assert_eq!(mine.total(), 30);
    assert_eq!(index.find_utxo(b"none").outputs.len(), 0);
    assert_eq!(TxOutputs { outputs: vec![] }.total(), 0);
}

#[test]
fn scan_lists_what_no_input_refers_to() {
    let w = world();
    let entries = w.index.chain.find_utxo_all();
    assert_eq!(entries.len(), 1);
    assert_eq!(entries[0].vout, 0);
    assert_eq!(entries[0].output.value, 100);
    assert!(Blockchain::new().find_utxo_all().is_empty());
}

#[test]
fn chain_scan_and_index_agree_on_balances() {
    let mut w = world();
    send(&mut w, true, 30);
    send(&mut w, false, 10);
    let hash_a = address_to_hash(&w.a).unwrap();
    let hash_b = address_to_hash(&w.b).unwrap();
    let chain = &w.index.chain;
    let sum = |outputs: Vec<TXOutput>| outputs.iter().map(|o| o.value as i128).sum::<i128>();
    assert_eq!(sum(chain.find_utxo(&hash_a)), 80);
    assert_eq!(sum(chain.find_utxo(&hash_b)), 20);
    assert_eq!(sum(chain.find_utxo(&hash_a)), balance(&w.index, &w.a));
    assert_eq!(sum(chain.find_utxo(&hash_b)), balance(&w.index, &w.b));
    assert!(chain.find_utxo(b"nobody").is_empty());
}

#[test]
fn chain_scan_finds_the_transactions_that_hold_unspent_outputs() {
    let mut w = world();
    let first = send(&mut w, true, 30);
    let hash_a = address_to_hash(&w.a).unwrap();
    let hash_b = address_to_hash(&w.b).unwrap();
    let id = first.get_transaction()[0].id.clone();
    let holders_a: Vec<String> =
        w.index.chain.find_unspent_transactions(&hash_a).iter().map(|t| t.id.clone()).collect();
    let holders_b: Vec<String> =
        w.index.chain.find_unspent_transactions(&hash_b).iter().map(|t| t.id.clone()).collect();
    // The coinbase of the genesis block is spent; the transfer holds both.
    assert_eq!(holders_a, vec![id.clone()]);
    assert_eq!(holders_b, vec![id]);
    assert!(w.index.chain.find_unspent_transactions(b"nobody").is_empty());
}

#[test]
fn chain_scan_selects_spendable_outputs_oldest_first() {
    let mut w = world();
    let first = send(&mut w, true, 30);
    let second = send(&mut w, true, 30);
    let hash_b = address_to_hash(&w.b).unwrap();
    let id1 = first.get_transaction()[0].id.clone();
    let id2 = second.get_transaction()[0].id.clone();
    let chain = &w.index.chain;
    assert_eq!(chain.find_spendable_outputs(&hash_b, 10), Ok((30, vec![(id1.clone(), 0)])));
    assert_eq!(
        chain.find_spendable_outputs(&hash_b, 31),
        Ok((60, vec![(id1.clone(), 0), (id2.clone(), 0)]))
    );
    assert_eq!(
        chain.find_spendable_outputs(&hash_b, 500),
        Ok((60, vec![(id1, 0), (id2, 0)]))
    );
}
