use pow_ledger::block::Block;
use pow_ledger::blockchain::Blockchain;
use pow_ledger::constants::ADDRESS;
use pow_ledger::error::LedgerError;
use pow_ledger::message::{
    BlockMessage, DataRequestType, GetBlockMessage, GetDataMessage, InventoryMessage, Message,
    TxMessage, VersionMessage,
};
use pow_ledger::node::{Node, Outgoing, Reaction};
use pow_ledger::parser_util::message_to_bytes;
use pow_ledger::transaction::Transaction;
use pow_ledger::unspent_tx_util::UnspentTXUtil;
use pow_ledger::wallet::Wallet;
use pow_ledger::wallet_chain::WalletChain;

const PEER: &str = "localhost:3005";

struct World {
    wallets: WalletChain,
    a: String,
    b: String,
    key_a: Vec<u8>,
}

fn world() -> World {
    let wallet_a = Wallet::from_seed(&[51u8; 32]);
    let wallet_b = Wallet::from_seed(&[52u8; 32]);
    let a = wallet_a.get_address();
    let b = wallet_b.get_address();
    let key_a = wallet_a.secret_key.clone();
    let mut wallets = WalletChain::new();
    wallets.insert(a.clone(), wallet_a);
    wallets.insert(b.clone(), wallet_b);
    World { wallets, a, b, key_a }
}

fn chain_of(address: &str, blocks: usize) -> Blockchain {
    let mut chain = Blockchain::create_blockchain(address.to_string()).unwrap();
    for round in 1..blocks {
        let coinbase =
            Transaction::new_coinbase(address.to_string(), format!("block {}", round)).unwrap();
        chain.mine_block(vec![coinbase]).unwrap();
    }
    chain
}

fn node_on(port: &str, miner: &str, chain: Blockchain) -> Node {
    Node::new(port, miner, UnspentTXUtil::new(chain))
}

fn blocks_oldest_first(chain: &Blockchain) -> Vec<Block> {
    chain.get_block_hashs().iter().rev().map(|h| chain.get_block(h).unwrap()).collect()
}

fn wire(sends: &[Outgoing]) -> Vec<(String, Vec<u8>)> {
    sends.iter().map(|o| (o.to.clone(), message_to_bytes(&o.message).unwrap())).collect()
}

fn expect(to: &str, message: Message) -> (String, Vec<u8>) {
    (to.to_string(), message_to_bytes(&message).unwrap())
}

fn get_data(from: &str, kind: DataRequestType, id: &str) -> Message {
    Message::GetData(GetDataMessage { from: from.to_string(), kind, id: id.to_string() })
}

fn inv(from: &str, kind: &str, items: &[String]) -> Message {
    Message::Inv(InventoryMessage {
        from: from.to_string(),
        kind: kind.to_string(),
        items: items.to_vec(),
    })
}

#[test]
fn new_node_knows_the_bootstrap_node_only() {
    let node = node_on("3001", "", Blockchain::new());
    assert_eq!(node.address, "localhost:3001");
    assert_eq!(node.miner_address, "");
    assert_eq!(node.get_known_nodes(), vec![String::from(ADDRESS)]);
    assert!(node.get_in_transit().is_empty());
    assert!(node.get_mempool().is_empty());
    assert_eq!(ADDRESS, "localhost:3000");
}

#[test]
fn block_download_asks_block_by_block_and_reindexes_once() {
    let w = world();
    let source = chain_of(&w.a, 3);
    let blocks = blocks_oldest_first(&source);
    let hashes: Vec<String> = blocks.iter().map(|b| b.get_hash()).collect();
    let mut node = node_on("3001", "", Blockchain::new());

    let reaction = node
        .handle_inv(InventoryMessage {
            from: PEER.to_string(),
            kind: String::from("block"),
            items: hashes.clone(),
        })
        .unwrap();
    assert_eq!(
        wire(&reaction.sends),
        vec![expect(PEER, get_data("localhost:3001", DataRequestType::Block, &hashes[0]))]
    );
    assert_eq!(reaction.reindexes, 0);
    assert_eq!(node.get_in_transit(), vec![hashes[1].clone(), hashes[2].clone()]);

    let mut reindexes = 0;
    let reaction =
        node.handle_block(BlockMessage { from: PEER.to_string(), block: blocks[0].clone() });
    reindexes += reaction.reindexes;
    assert_eq!(node.get_in_transit(), vec![hashes[2].clone()]);
    assert_eq!(
        wire(&reaction.sends),
        vec![expect(PEER, get_data("localhost:3001", DataRequestType::Block, &hashes[1]))]
    );
    assert!(node.metadata.unspent_tx.utxos.is_empty());

    let reaction =
        node.handle_block(BlockMessage { from: PEER.to_string(), block: blocks[1].clone() });
    reindexes += reaction.reindexes;
    assert!(node.get_in_transit().is_empty());
    assert_eq!(
        wire(&reaction.sends),
        vec![expect(PEER, get_data("localhost:3001", DataRequestType::Block, &hashes[2]))]
    );
    assert_eq!(reindexes, 0);

    let reaction =
        node.handle_block(BlockMessage { from: PEER.to_string(), block: blocks[2].clone() });
    reindexes += reaction.reindexes;
    assert!(reaction.sends.is_empty());
    assert_eq!(reindexes, 1);
    assert_eq!(node.get_best_height(), 2);
    assert_eq!(node.get_block_hashs(), source.get_block_hashs());
    assert_eq!(node.metadata.unspent_tx.utxos.len(), 3);
}

#[test]
fn inventory_of_blocks_queues_all_but_the_first() {
    let mut node = node_on("3001", "", Blockchain::new());
    let items = vec![
        String::from("h1"),
        String::from("h2"),
        String::from("h1"),
        String::from("h3"),
    ];
    node.handle_inv(InventoryMessage {
        from: PEER.to_string(),
        kind: String::from("block"),
        items,
    })
    .unwrap();
    assert_eq!(node.get_in_transit(), vec![String::from("h2"), String::from("h3")]);
}

#[test]
fn inventory_that_announces_nothing_is_refused() {
    let mut node = node_on("3001", "", Blockchain::new());
    node.replace_in_transit(vec![String::from("kept")]);
    for kind in ["block", "tx"] {
        let refused = node.handle_inv(InventoryMessage {
            from: PEER.to_string(),
            kind: kind.to_string(),
            items: vec![],
        });
        assert_eq!(refused.err(), Some(LedgerError::EmptyInventory));
    }
    let ignored = node
        .handle_inv(InventoryMessage {
            from: PEER.to_string(),
            kind: String::from("other"),
            items: vec![],
        })
        .unwrap();
    assert!(ignored.sends.is_empty());
    assert_eq!(node.get_in_transit(), vec![String::from("kept")]);
}

#[test]
fn inventory_of_a_transaction_asks_for_it_unless_held() {
    let w = world();
    let mut node = node_on("3001", "", Blockchain::new());
    let tx = Transaction::new_coinbase(w.a.clone(), String::from("held")).unwrap();
    let announce = |node: &mut Node, id: &str| {
        node.handle_inv(InventoryMessage {
            from: PEER.to_string(),
            kind: String::from("tx"),
            items: vec![id.to_string()],
        })
        .unwrap()
    };
    let reaction = announce(&mut node, &tx.id);
    assert_eq!(
        wire(&reaction.sends),
        vec![expect(PEER, get_data("localhost:3001", DataRequestType::TX, &tx.id))]
    );
    node.insert_mempool(tx.clone());
    let reaction = announce(&mut node, &tx.id);
    assert!(reaction.sends.is_empty());
    // A transaction held under an empty id counts as not held.
    let mut nameless = tx.clone();
    nameless.id = String::new();
    node.insert_mempool(nameless);
    let reaction = announce(&mut node, "");
    assert_eq!(reaction.sends.len(), 1);
    assert!(node.get_in_transit().is_empty());
}

#[test]
fn version_from_a_peer_ahead_asks_for_its_blocks() {
    let w = world();
    let mut node = node_on("3001", "", chain_of(&w.a, 1));
    let reaction =
        node.handle_version(VersionMessage { from: PEER.to_string(), version: 1, height: 5 });
    assert_eq!(
        wire(&reaction.sends),
        vec![
            expect(
                PEER,
                Message::GetBlock(GetBlockMessage { from: String::from("localhost:3001") })
            ),
            expect(PEER, Message::Addr(vec![String::from(ADDRESS)])),
        ]
    );
    assert_eq!(node.get_known_nodes(), vec![String::from(ADDRESS), PEER.to_string()]);
    assert!(node.node_is_known(PEER));
}

#[test]
fn version_from_a_peer_behind_tells_it_ours() {
    let w = world();
    let mut node = node_on("3001", "", chain_of(&w.a, 2));
    let reaction =
        node.handle_version(VersionMessage { from: PEER.to_string(), version: 1, height: 0 });
    assert_eq!(
        wire(&reaction.sends),
        vec![
            expect(
                PEER,
                Message::Version(VersionMessage {
                    from: String::from("localhost:3001"),
                    version: 1,
                    height: 1,
                })
            ),
            expect(PEER, Message::Addr(vec![String::from(ADDRESS)])),
        ]
    );
}

#[test]
fn version_from_a_peer_level_with_us_gets_the_peers_only() {
    let w = world();
    let mut node = node_on("3001", "", chain_of(&w.a, 1));
    node.add_nodes(PEER);
    let reaction =
        node.handle_version(VersionMessage { from: PEER.to_string(), version: 1, height: 0 });
    assert_eq!(
        wire(&reaction.sends),
        vec![expect(PEER, Message::Addr(vec![String::from(ADDRESS), PEER.to_string()]))]
    );
    assert_eq!(node.get_known_nodes().len(), 2);
}

#[test]
fn nothing_is_sent_to_the_node_itself() {
    let w = world();
    let mut node = node_on("3001", "", chain_of(&w.a, 1));
    let reaction = node.handle_version(VersionMessage {
        from: String::from("localhost:3001"),
        version: 1,
        height: 9,
    });
    assert!(reaction.sends.is_empty());
}

#[test]
fn addr_merges_the_peers_it_brings() {
    let mut node = node_on("3001", "", Blockchain::new());
    let reaction = node.handle_addr(vec![
        String::from("x:1"),
        String::from(ADDRESS),
        String::from("y:2"),
        String::from("x:1"),
    ]);
    assert!(reaction.sends.is_empty());
    assert_eq!(
        node.get_known_nodes(),
        vec![String::from(ADDRESS), String::from("x:1"), String::from("y:2")]
    );
    node.remove_node("x:1");
    assert_eq!(node.get_known_nodes(), vec![String::from(ADDRESS), String::from("y:2")]);
    assert!(!node.node_is_known("x:1"));
}

#[test]
fn get_blocks_is_answered_with_every_hash() {
    let w = world();
    let chain = chain_of(&w.a, 3);
    let hashes = chain.get_block_hashs();
    let node = node_on("3001", "", chain);
    let reaction = node.handle_get_blocks(GetBlockMessage { from: PEER.to_string() });
    assert_eq!(wire(&reaction.sends), vec![expect(PEER, inv("localhost:3001", "block", &hashes))]);
}

#[test]
fn get_data_is_answered_with_the_block_or_transaction() {
    let w = world();
    let chain = chain_of(&w.a, 2);
    let head = chain.get_block(&chain.get_curr_hash()).unwrap();
    let mut node = node_on("3001", "", chain);
    let ask = |node: &Node, kind: DataRequestType, id: &str| {
        node.handle_get_data(GetDataMessage {
            from: PEER.to_string(),
            kind,
            id: id.to_string(),
        })
    };
    let reaction = ask(&node, DataRequestType::Block, &head.get_hash()).unwrap();
    assert_eq!(
        wire(&reaction.sends),
        vec![expect(
            PEER,
            Message::Block(BlockMessage {
                from: String::from("localhost:3001"),
                block: head.clone()
            })
        )]
    );
    assert_eq!(
        ask(&node, DataRequestType::Block, "missing").err(),
        Some(LedgerError::BlockNotFound)
    );
    assert_eq!(
        ask(&node, DataRequestType::TX, "missing").err(),
        Some(LedgerError::TransactionNotFound)
    );
    assert!(ask(&node, DataRequestType::Data, "missing").unwrap().sends.is_empty());
    let tx = Transaction::new_coinbase(w.a.clone(), String::from("pooled")).unwrap();
    node.insert_mempool(tx.clone());
    let reaction = ask(&node, DataRequestType::TX, &tx.id).unwrap();
    assert_eq!(
        wire(&reaction.sends),
        vec![expect(
            PEER,
            Message::Tx(TxMessage { from: String::from("localhost:3001"), transaction: tx })
        )]
    );
}

#[test]
fn bootstrap_node_relays_a_transaction_to_every_other_peer() {
    let w = world();
    let mut node = node_on("3000", "", chain_of(&w.a, 1));
    assert_eq!(node.address, ADDRESS);
    node.add_nodes(PEER);
    node.add_nodes("localhost:3006");
    node.add_nodes("localhost:3007");
    let tx = Transaction::new_coinbase(w.a.clone(), String::from("relayed")).unwrap();
    let reaction = node.handle_tx(TxMessage { from: PEER.to_string(), transaction: tx.clone() });
    let note = |to: &str| expect(to, inv(ADDRESS, "tx", &[tx.id.clone()]));
    assert_eq!(wire(&reaction.sends), vec![note("localhost:3006"), note("localhost:3007")]);
    assert_eq!(reaction.reindexes, 0);
    assert!(!reaction.mining);
    assert_eq!(node.get_mempool().len(), 1);
    assert_eq!(node.get_mempool_tx(&tx.id).unwrap().id, tx.id);
    assert_eq!(node.get_best_height(), 0);
}

#[test]
fn node_that_does_not_mine_only_holds_a_transaction() {
    let w = world();
    let mut node = node_on("3001", "", chain_of(&w.a, 1));
    let tx = Transaction::new_coinbase(w.a.clone(), String::from("held")).unwrap();
    let reaction = node.handle_tx(TxMessage { from: PEER.to_string(), transaction: tx.clone() });
    assert!(reaction.sends.is_empty());
    assert!(!reaction.mining);
    assert_eq!(node.get_mempool().len(), 1);
    node.handle_tx(TxMessage { from: PEER.to_string(), transaction: tx });
    assert_eq!(node.get_mempool().len(), 1);
    node.clear_mempool();
    assert!(node.get_mempool().is_empty());
}

#[test]
fn mining_node_mines_what_verifies_and_announces_the_block() {
    let w = world();
    let mut node = node_on("3001", &w.b, chain_of(&w.a, 1));
    node.add_nodes(PEER);
    let mut tx = Transaction::new(&w.a, &w.b, 30, &node.metadata.unspent_tx, &w.wallets).unwrap();
    node.metadata.unspent_tx.chain.sign_transacton(&mut tx, &w.key_a).unwrap();
    let reaction = node.handle_tx(TxMessage { from: PEER.to_string(), transaction: tx.clone() });
    assert!(reaction.sends.is_empty());
    assert!(reaction.mining);
    assert_eq!(node.get_best_height(), 0);
    let reaction = node.mining_step().unwrap();
    assert_eq!(reaction.reindexes, 1);
    assert!(!reaction.mining);
    assert_eq!(node.get_best_height(), 1);
    assert!(node.get_mempool().is_empty());
    let head = node.get_block(&node.get_block_hashs()[0]).unwrap();
    assert_eq!(head.get_transaction().len(), 2);
    assert_eq!(head.get_transaction()[0].id, tx.id);
    assert!(head.get_transaction()[1].is_coinbase());
    assert_eq!(
        head.get_transaction()[1].input[0].pub_key,
        format!("Reward to '{}'", w.b).into_bytes()
    );
    let note = |to: &str| expect(to, inv("localhost:3001", "block", &[head.get_hash()]));
    assert_eq!(wire(&reaction.sends), vec![note(ADDRESS), note(PEER)]);
    let hash_b = pow_ledger::address::address_to_hash(&w.b).unwrap();
    assert_eq!(node.metadata.unspent_tx.find_utxo(&hash_b).total(), 130);
}

#[test]
fn mining_node_keeps_what_does_not_verify() {
    let w = world();
    let mut node = node_on("3001", &w.b, chain_of(&w.a, 1));
    let unsigned =
        Transaction::new(&w.a, &w.b, 30, &node.metadata.unspent_tx, &w.wallets).unwrap();
    let reaction = node.handle_tx(TxMessage { from: PEER.to_string(), transaction: unsigned });
    assert!(reaction.mining);
    let reaction = node.mining_step().unwrap();
    assert!(reaction.sends.is_empty());
    assert_eq!(reaction.reindexes, 0);
    assert!(!reaction.mining);
    assert_eq!(node.get_best_height(), 0);
    assert_eq!(node.get_mempool().len(), 1);
}

#[test]
fn mining_round_is_a_function_of_the_time() {
    let w = world();
    let chain = chain_of(&w.a, 1);
    let blocks = blocks_oldest_first(&chain);
    let mut one = node_on("3001", &w.b, chain);
    let mut two =
        node_on("3001", &w.b, Blockchain::restore(blocks[0].get_hash(), blocks.clone()));
    let mut tx = Transaction::new(&w.a, &w.b, 30, &one.metadata.unspent_tx, &w.wallets).unwrap();
    one.metadata.unspent_tx.chain.sign_transacton(&mut tx, &w.key_a).unwrap();
    one.insert_mempool(tx.clone());
    two.insert_mempool(tx);
    let first = one.mine_round_at(1234).unwrap().unwrap();
    let second = two.mine_round_at(1234).unwrap().unwrap();
    assert_eq!(first.get_hash(), second.get_hash());
    assert_eq!(first.get_timestamp(), 1234);
    assert_eq!(first.get_height(), 1);
    assert_eq!(first.get_prev_block_hash(), blocks[0].get_hash());
    assert!(one.get_mempool().is_empty());
    assert!(one.mine_round_at(1235).unwrap().is_none());
}

#[test]
fn mining_for_no_address_fails() {
    let w = world();
    let mut node = node_on("3001", "nobody", chain_of(&w.a, 1));
    let mut tx = Transaction::new(&w.a, &w.b, 30, &node.metadata.unspent_tx, &w.wallets).unwrap();
    node.metadata.unspent_tx.chain.sign_transacton(&mut tx, &w.key_a).unwrap();
    assert!(node.handle_tx(TxMessage { from: PEER.to_string(), transaction: tx }).mining);
    assert_eq!(node.mining_step().err(), Some(LedgerError::InvalidAddress));
    assert_eq!(node.get_best_height(), 0);
    assert_eq!(node.get_mempool().len(), 1);
}

#[test]
fn connection_bytes_are_read_and_handled() {
    let mut node = node_on("3001", "", Blockchain::new());
    let bytes =
        message_to_bytes(&Message::Addr(vec![String::from("x:1"), String::from("y:2")])).unwrap();
    let reaction: Reaction = node.handle_connection(&bytes).unwrap();
    assert!(reaction.sends.is_empty());
    assert_eq!(node.get_known_nodes().len(), 3);
    assert_eq!(node.handle_connection(b"garbage").err(), Some(LedgerError::UnknownCommand));
    assert_eq!(node.get_known_nodes().len(), 3);
    let version = Message::Version(VersionMessage { from: PEER.to_string(), version: 1, height: 3 });
    let reaction = node.handle_message(version).unwrap();
    assert_eq!(reaction.sends.len(), 2);
}

#[test]
fn mining_goes_on_while_the_mempool_holds_what_was_not_mined() {
    let w = world();
    let mut node = node_on("3001", &w.b, chain_of(&w.a, 1));
    let mut good = Transaction::new(&w.a, &w.b, 30, &node.metadata.unspent_tx, &w.wallets).unwrap();
    node.metadata.unspent_tx.chain.sign_transacton(&mut good, &w.key_a).unwrap();
    let unsigned =
        Transaction::new(&w.a, &w.b, 40, &node.metadata.unspent_tx, &w.wallets).unwrap();
    node.insert_mempool(unsigned.clone());
    node.insert_mempool(good.clone());
    let first = node.mining_step_at(10).unwrap();
    assert_eq!(first.reindexes, 1);
    assert!(first.mining);
    assert_eq!(first.sends.len(), 1);
    assert_eq!(node.get_mempool().len(), 1);
    assert_eq!(node.get_mempool()[0].id, unsigned.id);
    let second = node.mining_step_at(11).unwrap();
    assert_eq!(second.reindexes, 0);
    assert!(!second.mining);
    assert!(second.sends.is_empty());
    assert_eq!(node.get_best_height(), 1);
    assert_eq!(node.get_mempool().len(), 1);
}

#[test]
fn transaction_with_an_unknown_prior_stops_mining_with_an_error() {
    let w = world();
    let mut node = node_on("3001", &w.b, chain_of(&w.a, 1));
    let mut orphan =
        Transaction::new(&w.a, &w.b, 30, &node.metadata.unspent_tx, &w.wallets).unwrap();
    orphan.input[0].txid = String::from("unknown");
    node.insert_mempool(orphan);
    assert_eq!(node.mining_step_at(10).err(), Some(LedgerError::MissingPrior));
    assert_eq!(node.get_mempool().len(), 1);
    assert_eq!(node.get_best_height(), 0);
}

#[test]
fn node_mines_a_block_on_its_chain() {
    let w = world();
    let mut node = node_on("3001", "", chain_of(&w.a, 1));
    let coinbase = Transaction::new_coinbase(w.a.clone(), String::from("direct")).unwrap();
    let block = node.mine_block(vec![coinbase]).unwrap();
    assert_eq!(block.get_height(), 1);
    assert_eq!(node.get_block_hashs()[0], block.get_hash());
    assert!(node.verify_tx(&block.get_transaction()[0]).unwrap());
    // The index is as old as its last rebuild.
    assert_eq!(node.metadata.unspent_tx.utxos.len(), 1);
    node.utxo_reindex();
    assert_eq!(node.metadata.unspent_tx.utxos.len(), 2);
}
