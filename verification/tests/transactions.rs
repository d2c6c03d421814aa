use pow_ledger::blockchain::Blockchain;
use pow_ledger::constants::REWARD;
use pow_ledger::error::LedgerError;
use pow_ledger::transaction::Transaction;
use pow_ledger::txs::{TXInput, TXOutput};
use pow_ledger::unspent_tx_util::UnspentTXUtil;
use pow_ledger::wallet::Wallet;
use pow_ledger::wallet_chain::WalletChain;
use sha2::{Digest, Sha256};

fn hex(bytes: &[u8]) -> String {
    let mut text = String::new();
    for b in bytes {
        text.push_str(&format!("{:02x}", b));
    }
    text
}

struct World {
    wallets: WalletChain,
    a: String,
    b: String,
    key_a: Vec<u8>,
    index: UnspentTXUtil,
}

fn world() -> World {
    let wallet_a = Wallet::from_seed(&[21u8; 32]);
    let wallet_b = Wallet::from_seed(&[22u8; 32]);
    let a = wallet_a.get_address();
    let b = wallet_b.get_address();
    let key_a = wallet_a.secret_key.clone();
    let mut wallets = WalletChain::new();
    wallets.insert(a.clone(), wallet_a);
    wallets.insert(b.clone(), wallet_b);
    let chain = Blockchain::create_blockchain(a.clone()).unwrap();
    let index = UnspentTXUtil::new(chain);
    World { wallets, a, b, key_a, index }
}

fn encoded(tx: &Transaction) -> Vec<u8> {
    let inputs: Vec<(String, i32, Vec<u8>, Vec<u8>)> = tx
        .input
        .iter()
        .map(|i| (i.txid.clone(), i.vout, i.signature.clone(), i.pub_key.clone()))
        .collect();
    let outputs: Vec<(i32, Vec<u8>)> =
        tx.output.iter().map(|o| (o.value, o.pub_key_hash.clone())).collect();
    bincode::serialize(&(tx.id.clone(), inputs, outputs)).unwrap()
}

#[test]
fn coinbase_has_one_sentinel_input_and_the_reward() {
    let w = world();
    let tx = Transaction::new_coinbase(w.a.clone(), String::from("memo")).unwrap();
    assert!(tx.is_coinbase());
    assert_eq!(tx.input.len(), 1);
    assert_eq!(tx.input[0].txid, "");
    assert_eq!(tx.input[0].vout, -1);
    assert!(tx.input[0].signature.is_empty());
    assert_eq!(tx.input[0].pub_key, b"memo");
    assert_eq!(tx.output.len(), 1);
    assert_eq!(REWARD, 100);
    assert_eq!(tx.output[0].value, 100);
    assert_eq!(
        tx.output[0].pub_key_hash,
        pow_ledger::address::address_to_hash(&w.a).unwrap()
    );
}

#[test]
fn coinbase_without_memo_notes_the_beneficiary() {
    let w = world();
    let tx = Transaction::new_coinbase(w.a.clone(), String::new()).unwrap();
    assert_eq!(tx.input[0].pub_key, format!("Reward to '{}'", w.a).into_bytes());
}

#[test]
fn coinbase_for_no_address_fails() {
    assert_eq!(
        Transaction::new_coinbase(String::from("nobody"), String::new()).err(),
        Some(LedgerError::InvalidAddress)
    );
}

#[test]
fn id_is_the_digest_of_the_encoding_with_an_empty_id() {
    let w = world();
    let tx = Transaction::new_coinbase(w.a.clone(), String::from("memo")).unwrap();
    let mut blank = tx.clone();
    blank.id = String::new();
    assert_eq!(tx.id, hex(&Sha256::digest(encoded(&blank))));
    assert_eq!(tx.hash().unwrap(), hex(&Sha256::digest(encoded(&tx))));
    assert_eq!(tx.id.len(), 64);
}

#[test]
fn is_coinbase_asks_for_one_input_without_reference() {
    let sentinel =
        TXInput { txid: String::new(), vout: -1, signature: vec![], pub_key: vec![] };
    let make = |input: Vec<TXInput>| Transaction { id: String::from("x"), input, output: vec![] };
    assert!(make(vec![sentinel.clone()]).is_coinbase());
    assert!(!make(vec![]).is_coinbase());
    assert!(!make(vec![sentinel.clone(), sentinel.clone()]).is_coinbase());
    let mut named = sentinel.clone();
    named.txid = String::from("t");
    assert!(!make(vec![named]).is_coinbase());
    let mut indexed = sentinel.clone();
    indexed.vout = 0;
    assert!(!make(vec![indexed]).is_coinbase());
}

#[test]
fn coinbase_verifies_without_any_prior() {
    let w = world();
    let tx = Transaction::new_coinbase(w.a.clone(), String::from("memo")).unwrap();
    assert_eq!(tx.verify(&vec![]), Ok(true));
    assert_eq!(w.index.chain.verify_transacton(&tx), Ok(true));
    assert_eq!(w.index.chain.verify_transaction(&tx), Ok(true));
    assert_eq!(Blockchain::new().verify_transacton(&tx), Ok(true));
}

#[test]
fn signing_a_coinbase_changes_nothing() {
    let w = world();
    let mut tx = Transaction::new_coinbase(w.a.clone(), String::from("memo")).unwrap();
    let before = encoded(&tx);
    assert_eq!(tx.sign(&w.key_a, &vec![]), Ok(()));
    assert_eq!(encoded(&tx), before);
}

#[test]
fn transfer_spends_the_reward_and_returns_the_change() {
    let w = world();
    let tx = Transaction::new(&w.a, &w.b, 30, &w.index, &w.wallets).unwrap();
    let genesis = w.index.chain.get_block(&w.index.chain.get_curr_hash()).unwrap();
    assert_eq!(tx.input.len(), 1);
    assert_eq!(tx.input[0].txid, genesis.get_transaction()[0].id);
    assert_eq!(tx.input[0].vout, 0);
    assert!(tx.input[0].signature.is_empty());
    assert_eq!(tx.input[0].pub_key, w.wallets.get_wallet(&w.a).unwrap().public_key);
    assert_eq!(tx.output.len(), 2);
    assert_eq!(tx.output[0].value, 30);
    assert_eq!(tx.output[0].pub_key_hash, pow_ledger::address::address_to_hash(&w.b).unwrap());
    assert_eq!(tx.output[1].value, 70);
    assert_eq!(tx.output[1].pub_key_hash, pow_ledger::address::address_to_hash(&w.a).unwrap());
    let mut blank = tx.clone();
    blank.id = String::new();
    assert_eq!(tx.id, hex(&Sha256::digest(encoded(&blank))));
    assert!(!tx.is_coinbase());
}

#[test]
fn transfer_of_the_whole_balance_has_no_change() {
    let w = world();
    let tx = Transaction::new(&w.a, &w.b, 100, &w.index, &w.wallets).unwrap();
    assert_eq!(tx.output.len(), 1);
    assert_eq!(tx.output[0].value, 100);
}

#[test]
fn transfer_beyond_the_balance_fails() {
    let w = world();
    let before = w.index.utxos.len();
    assert_eq!(
        Transaction::new(&w.a, &w.b, 200, &w.index, &w.wallets).err(),
        Some(LedgerError::InsufficientFunds)
    );
    assert_eq!(
        Transaction::new(&w.b, &w.a, 1, &w.index, &w.wallets).err(),
        Some(LedgerError::InsufficientFunds)
    );
    assert_eq!(w.index.utxos.len(), before);
    assert_eq!(w.index.chain.block_count(), 1);
}

#[test]
fn transfer_between_unknown_wallets_fails() {
    let w = world();
    let stranger = Wallet::from_seed(&[23u8; 32]).get_address();
    assert_eq!(
        Transaction::new(&stranger, &w.b, 1, &w.index, &w.wallets).err(),
        Some(LedgerError::WalletNotFound)
    );
    assert_eq!(
        Transaction::new(&w.a, &stranger, 1, &w.index, &w.wallets).err(),
        Some(LedgerError::WalletNotFound)
    );
}

#[test]
fn transfer_to_a_wallet_held_under_no_address_fails() {
    let mut w = world();
    w.wallets.insert(String::from("nickname"), Wallet::from_seed(&[24u8; 32]));
    assert_eq!(
        Transaction::new(&w.a, "nickname", 1, &w.index, &w.wallets).err(),
        Some(LedgerError::InvalidAddress)
    );
}

#[test]
fn signed_transfer_verifies() {
    let w = world();
    let mut tx = Transaction::new(&w.a, &w.b, 30, &w.index, &w.wallets).unwrap();
    let id = tx.id.clone();
    assert_eq!(w.index.chain.verify_transacton(&tx), Ok(false));
    w.index.chain.sign_transacton(&mut tx, &w.key_a).unwrap();
    assert_eq!(tx.id, id);
    assert_eq!(tx.input[0].signature.len(), 64);
    assert_eq!(w.index.chain.verify_transacton(&tx), Ok(true));
    assert_eq!(w.index.chain.verify_transaction(&tx), Ok(true));
}

#[test]
fn signature_is_made_over_the_scratch_digest() {
    let w = world();
    let mut tx = Transaction::new(&w.a, &w.b, 30, &w.index, &w.wallets).unwrap();
    let prior = w.index.chain.find_transaction(&tx.input[0].txid).unwrap();
    let mut scratch = tx.deep_copy();
    assert!(scratch.input[0].pub_key.is_empty());
    scratch.input[0].pub_key = prior.output[0].pub_key_hash.clone();
    let digest = hex(&Sha256::digest(encoded(&scratch)));
    tx.sign(&w.key_a, &vec![prior]).unwrap();
    assert_eq!(
        Some(tx.input[0].signature.clone()),
        pow_ledger::signature::sign_message(digest.as_bytes(), &w.key_a)
    );
}

#[test]
fn signature_with_any_byte_flipped_fails_verification() {
    let w = world();
    let mut tx = Transaction::new(&w.a, &w.b, 30, &w.index, &w.wallets).unwrap();
    w.index.chain.sign_transacton(&mut tx, &w.key_a).unwrap();
    for at in 0..tx.input[0].signature.len() {
        let mut changed = tx.clone();
        changed.input[0].signature[at] ^= 0x01;
        assert_eq!(w.index.chain.verify_transacton(&changed), Ok(false));
    }
}

#[test]
fn transfer_signed_with_another_key_does_not_verify() {
    let w = world();
    let mut tx = Transaction::new(&w.a, &w.b, 30, &w.index, &w.wallets).unwrap();
    let other = Wallet::from_seed(&[25u8; 32]);
    w.index.chain.sign_transacton(&mut tx, &other.secret_key).unwrap();
    assert_eq!(w.index.chain.verify_transacton(&tx), Ok(false));
}

#[test]
fn changed_output_invalidates_the_signature() {
    let w = world();
    let mut tx = Transaction::new(&w.a, &w.b, 30, &w.index, &w.wallets).unwrap();
    w.index.chain.sign_transacton(&mut tx, &w.key_a).unwrap();
    tx.output[0].value = 31;
    assert_eq!(w.index.chain.verify_transacton(&tx), Ok(false));
}

#[test]
fn signing_with_a_short_key_fails_and_leaves_the_transaction() {
    let w = world();
    let mut tx = Transaction::new(&w.a, &w.b, 30, &w.index, &w.wallets).unwrap();
    let before = encoded(&tx);
    assert_eq!(
        w.index.chain.sign_transacton(&mut tx, &w.key_a[0..32]),
        Err(LedgerError::InvalidKey)
    );
    assert_eq!(encoded(&tx), before);
}

#[test]
fn unknown_prior_transaction_fails_signing_and_verification() {
    let w = world();
    let mut tx = Transaction::new(&w.a, &w.b, 30, &w.index, &w.wallets).unwrap();
    tx.input[0].txid = String::from("unknown");
    assert_eq!(w.index.chain.verify_transacton(&tx), Err(LedgerError::MissingPrior));
    assert_eq!(
        w.index.chain.sign_transacton(&mut tx, &w.key_a),
        Err(LedgerError::MissingPrior)
    );
    assert_eq!(tx.verify(&vec![]), Err(LedgerError::MissingPrior));
    assert_eq!(tx.sign(&w.key_a, &vec![]), Err(LedgerError::MissingPrior));
}

#[test]
fn reference_to_an_output_that_is_not_there_fails() {
    let w = world();
    let mut tx = Transaction::new(&w.a, &w.b, 30, &w.index, &w.wallets).unwrap();
    tx.input[0].vout = 5;
    assert_eq!(w.index.chain.verify_transacton(&tx), Err(LedgerError::MissingPrior));
    tx.input[0].vout = -2;
    assert_eq!(w.index.chain.verify_transacton(&tx), Err(LedgerError::MissingPrior));
}

#[test]
fn later_inputs_are_signed_over_the_locks_of_earlier_ones() {
    let w = world();
    let mut chain = Blockchain::create_blockchain(w.a.clone()).unwrap();
    let second = Transaction::new_coinbase(w.a.clone(), String::from("second")).unwrap();
    chain.mine_block(vec![second]).unwrap();
    let index = UnspentTXUtil::new(chain);
    let mut tx = Transaction::new(&w.a, &w.b, 150, &index, &w.wallets).unwrap();
    assert_eq!(tx.input.len(), 2);
    assert_eq!(tx.output[1].value, 50);
    let priors = index.chain.get_prev_txs(&tx).unwrap();
    assert_eq!(priors.len(), 2);

    let mut scratch = tx.deep_copy();
    scratch.input[0].pub_key = priors[0].output[0].pub_key_hash.clone();
    let first = hex(&Sha256::digest(encoded(&scratch)));
    scratch.id = first.clone();
    scratch.input[1].pub_key = priors[1].output[0].pub_key_hash.clone();
    let second = hex(&Sha256::digest(encoded(&scratch)));
    assert_ne!(first, second);

    index.chain.sign_transacton(&mut tx, &w.key_a).unwrap();
    assert_eq!(
        Some(tx.input[0].signature.clone()),
        pow_ledger::signature::sign_message(first.as_bytes(), &w.key_a)
    );
    assert_eq!(
        Some(tx.input[1].signature.clone()),
        pow_ledger::signature::sign_message(second.as_bytes(), &w.key_a)
    );
    assert_eq!(index.chain.verify_transacton(&tx), Ok(true));
    let mut swapped = tx.clone();
    swapped.input[1].signature = tx.input[0].signature.clone();
    assert_eq!(index.chain.verify_transacton(&swapped), Ok(false));
}

#[test]
fn block_with_a_transaction_that_does_not_verify_is_not_mined() {
    let mut w = world();
    let tx = Transaction::new(&w.a, &w.b, 30, &w.index, &w.wallets).unwrap();
    let head = w.index.chain.get_curr_hash();
    assert_eq!(
        w.index.chain.mine_block(vec![tx]).err(),
        Some(LedgerError::InvalidTransaction)
    );
    assert_eq!(w.index.chain.get_curr_hash(), head);
    assert_eq!(w.index.chain.block_count(), 1);
}

#[test]
fn output_is_locked_to_the_hash_of_its_address() {
    let w = world();
    let output = TXOutput::new(5, w.a.clone()).unwrap();
    let hash = pow_ledger::address::address_to_hash(&w.a).unwrap();
    assert_eq!(output.value, 5);
    assert!(output.is_locked_with_key(&hash));
    assert!(!output.is_locked_with_key(&hash[0..19]));
    assert_eq!(TXOutput::new(5, String::from("junk")).err(), Some(LedgerError::InvalidAddress));
    let mut relocked = output.clone();
    assert_eq!(relocked.lock("junk"), Err(LedgerError::InvalidAddress));
    assert_eq!(relocked.pub_key_hash, hash);
    relocked.lock(&w.b).unwrap();
    assert!(!relocked.is_locked_with_key(&hash));
}

#[test]
fn input_uses_the_key_whose_hash_it_is_asked_about() {
    let w = world();
    let wallet = w.wallets.get_wallet(&w.a).unwrap();
    let input = TXInput {
        txid: String::from("t"),
        vout: 0,
        signature: vec![],
        pub_key: wallet.public_key.clone(),
    };
    let hash = pow_ledger::address::address_to_hash(&w.a).unwrap();
    assert!(input.uses_key(&hash));
    assert!(!input.uses_key(&pow_ledger::address::address_to_hash(&w.b).unwrap()));
}

#[test]
fn transaction_survives_the_way_through_its_parts() {
    let w = world();
    let mut tx = Transaction::new(&w.a, &w.b, 30, &w.index, &w.wallets).unwrap();
    w.index.chain.sign_transacton(&mut tx, &w.key_a).unwrap();
    let back = Transaction::from_parts(&tx.to_parts());
    assert_eq!(encoded(&back), encoded(&tx));
    assert_eq!(bincode::serialize(&tx.to_parts()).unwrap(), encoded(&tx));
}

#[test]
fn transfer_whose_change_leaves_the_range_of_amounts_fails() {
    let w = world();
    assert_eq!(
        Transaction::new(&w.a, &w.b, i32::MIN, &w.index, &w.wallets).err(),
        Some(LedgerError::Overflow)
    );
}
