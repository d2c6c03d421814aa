use pow_ledger::block::Block;
use pow_ledger::error::LedgerError;
use pow_ledger::message::{
    BlockMessage, DataRequestType, GetBlockMessage, GetDataMessage, InventoryMessage, Message,
    TxMessage, VersionMessage,
};
use pow_ledger::parser_util::{bytes_to_cmd, cmd_to_bytes, message_to_bytes};
use pow_ledger::transaction::Transaction;
use pow_ledger::wallet::Wallet;

fn tagged(tag: &str, payload: Vec<u8>) -> Vec<u8> {
    let mut bytes = vec![0u8; 12];
    bytes[..tag.len()].copy_from_slice(tag.as_bytes());
    bytes.extend(payload);
    bytes
}

fn coinbase(memo: &str) -> Transaction {
    let address = Wallet::from_seed(&[41u8; 32]).get_address();
    Transaction::new_coinbase(address, memo.to_string()).unwrap()
}

#[test]
fn tag_is_the_command_padded_with_zeros() {
    assert_eq!(cmd_to_bytes("version"), *b"version\0\0\0\0\0");
    assert_eq!(cmd_to_bytes("getblocks"), *b"getblocks\0\0\0");
    assert_eq!(cmd_to_bytes("tx"), *b"tx\0\0\0\0\0\0\0\0\0\0");
    assert_eq!(cmd_to_bytes(""), [0u8; 12]);
    assert_eq!(cmd_to_bytes("exactlytwelv"), *b"exactlytwelv");
}

#[test]
fn version_message_is_framed_and_read_back() {
    let msg = Message::Version(VersionMessage {
        from: String::from("localhost:3001"),
        version: 1,
        height: 7,
    });
    let bytes = message_to_bytes(&msg).unwrap();
    let payload = bincode::serialize(&(String::from("localhost:3001"), 1i32, 7i32)).unwrap();
    assert_eq!(bytes, tagged("version", payload));
    match bytes_to_cmd(&bytes).unwrap() {
        Message::Version(m) => {
            assert_eq!(m.from, "localhost:3001");
            assert_eq!(m.version, 1);
            assert_eq!(m.height, 7);
        }
        other => panic!("read {:?}", other),
    }
}

#[test]
fn addr_message_is_framed_and_read_back() {
    let peers = vec![String::from("a:1"), String::from("b:2")];
    let bytes = message_to_bytes(&Message::Addr(peers.clone())).unwrap();
    assert_eq!(bytes, tagged("addr", bincode::serialize(&peers).unwrap()));
    match bytes_to_cmd(&bytes).unwrap() {
        Message::Addr(read) => assert_eq!(read, peers),
        other => panic!("read {:?}", other),
    }
}

#[test]
fn get_blocks_message_is_framed_and_read_back() {
    let msg = Message::GetBlock(GetBlockMessage { from: String::from("me") });
    let bytes = message_to_bytes(&msg).unwrap();
    assert_eq!(bytes, tagged("getblocks", bincode::serialize(&String::from("me")).unwrap()));
    match bytes_to_cmd(&bytes).unwrap() {
        Message::GetBlock(m) => assert_eq!(m.from, "me"),
        other => panic!("read {:?}", other),
    }
}

#[test]
fn get_data_message_numbers_its_kind() {
    for (kind, number) in
        [(DataRequestType::Block, 0u32), (DataRequestType::Data, 1), (DataRequestType::TX, 2)]
    {
        let msg = Message::GetData(GetDataMessage {
            from: String::from("me"),
            kind,
            id: String::from("abc"),
        });
        let bytes = message_to_bytes(&msg).unwrap();
        let payload =
            bincode::serialize(&(String::from("me"), number, String::from("abc"))).unwrap();
        assert_eq!(bytes, tagged("getdata", payload));
        match bytes_to_cmd(&bytes).unwrap() {
            Message::GetData(m) => {
                assert_eq!(m.kind, kind);
                assert_eq!(m.id, "abc");
                assert_eq!(m.from, "me");
            }
            other => panic!("read {:?}", other),
        }
    }
    let unknown = bincode::serialize(&(String::from("me"), 3u32, String::from("abc"))).unwrap();
    assert_eq!(bytes_to_cmd(&tagged("getdata", unknown)).err(), Some(LedgerError::Decoding));
}

#[test]
fn kinds_of_request_have_names() {
    assert_eq!(DataRequestType::Block.to_text(), "block");
    assert_eq!(DataRequestType::Data.to_text(), "data");
    assert_eq!(DataRequestType::TX.to_text(), "tx");
    assert_eq!(DataRequestType::from_number(2), Some(DataRequestType::TX));
    assert_eq!(DataRequestType::from_number(3), None);
    assert_eq!(DataRequestType::Data.to_number(), 1);
}

#[test]
fn inventory_message_is_framed_and_read_back() {
    let msg = Message::Inv(InventoryMessage {
        from: String::from("me"),
        kind: String::from("block"),
        items: vec![String::from("h1"), String::from("h2")],
    });
    let bytes = message_to_bytes(&msg).unwrap();
    let payload = bincode::serialize(&(
        String::from("me"),
        String::from("block"),
        vec![String::from("h1"), String::from("h2")],
    ))
    .unwrap();
    assert_eq!(bytes, tagged("inv", payload));
    match bytes_to_cmd(&bytes).unwrap() {
        Message::Inv(m) => {
            assert_eq!(m.kind, "block");
            assert_eq!(m.items, vec![String::from("h1"), String::from("h2")]);
        }
        other => panic!("read {:?}", other),
    }
}

#[test]
fn tx_message_is_framed_and_read_back() {
    let tx = coinbase("wire");
    let msg = Message::Tx(TxMessage { from: String::from("me"), transaction: tx.clone() });
    let bytes = message_to_bytes(&msg).unwrap();
    assert_eq!(
        bytes,
        tagged("tx", bincode::serialize(&(String::from("me"), tx.to_parts())).unwrap())
    );
    match bytes_to_cmd(&bytes).unwrap() {
        Message::Tx(m) => {
            assert_eq!(m.from, "me");
            assert_eq!(m.transaction.to_parts(), tx.to_parts());
        }
        other => panic!("read {:?}", other),
    }
}

#[test]
fn block_message_is_framed_and_read_back() {
    let block = Block::new_at(vec![coinbase("a"), coinbase("b")], String::from("p"), 3, 77).unwrap();
    let msg = Message::Block(BlockMessage { from: String::from("me"), block: block.clone() });
    let bytes = message_to_bytes(&msg).unwrap();
    assert_eq!(
        bytes,
        tagged("block", bincode::serialize(&(String::from("me"), block.to_parts())).unwrap())
    );
    match bytes_to_cmd(&bytes).unwrap() {
        Message::Block(m) => {
            assert_eq!(m.from, "me");
            assert_eq!(m.block.to_parts(), block.to_parts());
            assert!(m.block.is_valid());
        }
        other => panic!("read {:?}", other),
    }
}

#[test]
fn zero_bytes_inside_the_tag_are_passed_over() {
    let payload = bincode::serialize(&String::from("me")).unwrap();
    let mut bytes = b"get\0blocks\0\0".to_vec();
    bytes.extend(payload);
    assert!(matches!(bytes_to_cmd(&bytes), Ok(Message::GetBlock(_))));
}

#[test]
fn unknown_tags_and_short_messages_are_refused() {
    assert_eq!(bytes_to_cmd(&[]).err(), Some(LedgerError::UnknownCommand));
    assert_eq!(bytes_to_cmd(b"version").err(), Some(LedgerError::UnknownCommand));
    assert_eq!(
        bytes_to_cmd(&tagged("ping", vec![1, 2, 3])).err(),
        Some(LedgerError::UnknownCommand)
    );
    assert_eq!(
        bytes_to_cmd(&tagged("Version", vec![])).err(),
        Some(LedgerError::UnknownCommand)
    );
}

#[test]
fn payload_that_does_not_decode_is_refused() {
    for tag in ["addr", "block", "inv", "getblocks", "getdata", "tx", "version"] {
        assert_eq!(bytes_to_cmd(&tagged(tag, vec![0xff])).err(), Some(LedgerError::Decoding));
    }
    assert_eq!(bytes_to_cmd(&tagged("version", vec![])).err(), Some(LedgerError::Decoding));
}
