use ed25519_dalek::Signer;
use pow_ledger::address::{address_to_hash, has_decodable_shape};
use pow_ledger::digest::hash_pub_key;
use pow_ledger::signature::{check_signature, format_message, sign_message};
use pow_ledger::wallet::Wallet;
use pow_ledger::wallet_chain::WalletChain;
use ripemd::{Digest, Ripemd160};

#[test]
fn test_create_wallet_and_hash() {
    let w1 = Wallet::new().unwrap();
    let w2 = Wallet::new().unwrap();
    println!("{}", w1.get_address());
    println!("{}", w2.get_address());

    let mut p2 = w2.public_key.clone();
    hash_pub_key(&mut p2);
    assert_eq!(p2.len(), 20);
    let pub_key_hash = address_to_hash(&w2.get_address()).unwrap();
    assert_eq!(pub_key_hash, p2);
}

#[test]
fn test_wallets() {
    let mut ws = WalletChain::new();
    let wa1 = ws.create_wallet().unwrap();
    let w1 = ws.get_wallet(&wa1).unwrap().clone();

    let mut ws2 = WalletChain::new();
    ws2.insert(wa1.clone(), w1.clone());
    let w2 = ws2.get_wallet(&wa1).unwrap();
    assert_eq!(&w1, w2);
}

#[test]
#[should_panic]
fn test_wallets_not_exist() {
    let w3 = Wallet::new().unwrap();
    let ws2 = WalletChain::new();
    ws2.get_wallet(&w3.get_address()).unwrap();
}

#[test]
fn test_signature() {
    let w = Wallet::new().unwrap();
    let signature = sign_message("test".as_bytes(), &w.secret_key).unwrap();
    assert!(check_signature("test".as_bytes(), &w.public_key, &signature));
}

#[test]
fn test_signature_deprecated() {
    let wallet = Wallet::from_seed(&[7u8; 32]);
    assert_eq!(wallet.secret_key.len(), 64);
    assert_eq!(wallet.public_key.len(), 32);
    let signature = sign_message("test".as_bytes(), &wallet.secret_key).unwrap();
    assert!(check_signature("test".as_bytes(), &wallet.public_key, &signature));
}

#[test]
fn fresh_wallets_differ() {
    let a = Wallet::new().unwrap();
    let b = Wallet::new().unwrap();
    assert_ne!(a.secret_key, b.secret_key);
    assert_ne!(a.get_address(), b.get_address());
}

#[test]
fn key_pair_is_the_ed25519_pair_of_the_seed() {
    let seed = [9u8; 32];
    let wallet = Wallet::from_seed(&seed);
    let reference = ed25519_dalek::SigningKey::from_bytes(&seed);
    assert_eq!(&wallet.secret_key[0..32], &seed);
    assert_eq!(&wallet.secret_key[32..64], &reference.verifying_key().to_bytes());
    assert_eq!(wallet.public_key, reference.verifying_key().to_bytes().to_vec());
}

#[test]
fn signature_is_the_ed25519_signature() {
    let seed = [11u8; 32];
    let wallet = Wallet::from_seed(&seed);
    let reference = ed25519_dalek::SigningKey::from_bytes(&seed);
    let signature = sign_message(b"a message", &wallet.secret_key).unwrap();
    assert_eq!(signature, reference.sign(b"a message").to_bytes().to_vec());
    assert!(check_signature(b"a message", &wallet.public_key, &signature));
    assert!(!check_signature(b"another message", &wallet.public_key, &signature));
}

#[test]
fn signature_with_any_byte_changed_does_not_stand() {
    let wallet = Wallet::from_seed(&[12u8; 32]);
    let signature = sign_message(b"payload", &wallet.secret_key).unwrap();
    for at in 0..signature.len() {
        let mut changed = signature.clone();
        changed[at] ^= 0xff;
        assert!(!check_signature(b"payload", &wallet.public_key, &changed));
    }
}

#[test]
fn short_keys_and_signatures_are_refused_without_a_check() {
    let wallet = Wallet::from_seed(&[13u8; 32]);
    assert_eq!(sign_message(b"m", &wallet.secret_key[0..63]), None);
    let signature = sign_message(b"m", &wallet.secret_key).unwrap();
    assert!(!check_signature(b"m", &wallet.public_key[0..31], &signature));
    assert!(!check_signature(b"m", &wallet.public_key, &signature[0..63]));
    assert!(!check_signature(b"m", &wallet.public_key, &[]));
}

#[test]
fn hash_of_a_public_key_is_its_ripemd160_digest() {
    let mut key = b"a public key".to_vec();
    let expected = Ripemd160::digest(b"a public key").to_vec();
    hash_pub_key(&mut key);
    assert_eq!(key, expected);
    assert_eq!(key.len(), 20);
}

#[test]
fn address_is_the_base58_script_address_of_the_key_hash() {
    let wallet = Wallet::from_seed(&[14u8; 32]);
    let expected = bitcoincash_addr::Address {
        body: Ripemd160::digest(&wallet.public_key).to_vec(),
        scheme: bitcoincash_addr::Scheme::Base58,
        hash_type: bitcoincash_addr::HashType::Script,
        network: bitcoincash_addr::Network::Main,
    }
    .encode()
    .unwrap();
    assert_eq!(wallet.get_address(), expected);
    assert!(wallet.get_address().starts_with('3'));
}

#[test]
fn known_address_decodes_to_its_hash() {
    let hash = address_to_hash("1NM2HFXin4cEQRBLjkNZAS98qLX9JKzjKn").unwrap();
    let expected: Vec<u8> = vec![
        0xea, 0x24, 0x07, 0x82, 0x9a, 0x50, 0x55, 0x46, 0x6b, 0x27, 0x78, 0x4c, 0xde, 0x8c, 0xf4,
        0x63, 0x16, 0x79, 0x46, 0xbf,
    ];
    assert_eq!(hash, expected);
    let cash = address_to_hash("bchtest:qr4zgpuznfg923ntyauyeh5v7333v72xhum2dsdgfh");
    assert_eq!(cash, Some(expected));
}

#[test]
fn texts_that_are_no_address_decode_to_nothing() {
    assert_eq!(address_to_hash(""), None);
    assert_eq!(address_to_hash("0"), None);
    assert_eq!(address_to_hash("not an address"), None);
    assert_eq!(address_to_hash("1NM2HFXin4cEQRBLjkNZAS98qLX9JKzjKm"), None);
    assert_eq!(address_to_hash("bitcoincash:q"), None);
    assert_eq!(address_to_hash("bitcoincash:"), None);
}

#[test]
fn decodable_shape_asks_for_ten_characters_behind_a_single_colon() {
    assert!(has_decodable_shape("no colon at all"));
    assert!(has_decodable_shape("a:b:c"));
    assert!(has_decodable_shape("x:0123456789"));
    assert!(!has_decodable_shape("x:012345678"));
    assert!(!has_decodable_shape(":"));
    assert!(has_decodable_shape("é:0123456789"));
}

#[test]
fn wallet_chain_holds_each_address_once() {
    let mut chain = WalletChain::new();
    assert!(chain.get_all_address().is_empty());
    let first = Wallet::from_seed(&[1u8; 32]);
    let second = Wallet::from_seed(&[2u8; 32]);
    chain.insert(String::from("a"), first.clone());
    chain.insert(String::from("b"), second.clone());
    chain.insert(String::from("a"), second.clone());
    assert_eq!(chain.get_all_address(), vec![String::from("a"), String::from("b")]);
    assert_eq!(chain.get_wallet("a"), Some(&second));
    assert_eq!(chain.get_wallet("b"), Some(&second));
    assert_eq!(chain.get_wallet("c"), None);
}

#[test]
fn created_wallet_is_held_under_its_own_address() {
    let mut chain = WalletChain::new();
    let address = chain.create_wallet().unwrap();
    let wallet = chain.get_wallet(&address).unwrap();
    assert_eq!(wallet.get_address(), address);
    assert_eq!(chain.get_all_address(), vec![address]);
}

#[test]
fn greeting_names_the_person() {
    assert_eq!(format_message("test"), "Hello, test!");
    assert_eq!(format_message(""), "Hello, !");
}

#[test]
fn odd_texts_are_refused_without_ado() {
    for text in [
        "bitcoincash:qqqqqqqqqqqq",
        "bitcoincash:QQQQQQQQQQqq",
        "bchtest:0123456789",
        "unknown:qqqqqqqqqqqq",
        "bitcoincash:qqqqqqqqqqqqqqqqqqqqqqqqqqqqqqqqqqqqqqqqqq",
        "1\u{80}",
        "\u{80}1NM2HFXin4cEQRBLjkNZAS98qLX9JKzjKn",
        "1111111111111111111111111111111111",
        "zzzzzzzzzzzzzzzzzzzzzzzzzzzzzzzzzzzzzzzzzzzzzzzzzz",
        "a:b:c:d",
        " ",
    ] {
        assert_eq!(address_to_hash(text), None);
    }
}
