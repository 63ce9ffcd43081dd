use ledger_wallet::errors::WalletError;
use ledger_wallet::models::{KeyPair, Wallets};

#[test]
fn new_store_is_empty() {
    let w = Wallets::new();
    assert!(w.wallets.is_empty());
    assert!(w.get_wallet("anyone").is_none());
    assert!(w.list_wallets().is_empty());
}

#[test]
fn default_store_is_empty() {
    let w = Wallets::default();
    assert!(w.wallets.is_empty());
}

#[test]
fn create_wallet_twice_fails_and_keeps_first() {
    let mut w = Wallets::new();
    assert!(w.create_wallet("alice").is_ok());
    let first_pk = w.get_wallet("alice").unwrap().public_key.clone();
    let first_sk = w.get_wallet("alice").unwrap().private_key.clone();

    let second = w.create_wallet("alice");
    match second {
        Err(WalletError::WalletExists(name)) => assert_eq!(name, "alice"),
        other => panic!("expected WalletExists, got {:?}", other),
    }
    assert_eq!(w.wallets.len(), 1);
    assert_eq!(w.get_wallet("alice").unwrap().public_key, first_pk);
    assert_eq!(w.get_wallet("alice").unwrap().private_key, first_sk);
}

#[test]
fn add_wallet_duplicate_name_fails() {
    let mut w = Wallets::new();
    let kp1 = KeyPair { private_key: "aa".to_string(), public_key: "bb".to_string() };
    let kp2 = KeyPair { private_key: "cc".to_string(), public_key: "dd".to_string() };
    assert!(w.add_wallet("x", kp1).is_ok());
    match w.add_wallet("x", kp2) {
        Err(WalletError::WalletExists(name)) => assert_eq!(name, "x"),
        other => panic!("expected WalletExists, got {:?}", other),
    }
    assert_eq!(w.wallets.len(), 1);
    assert_eq!(w.get_wallet("x").unwrap().private_key, "aa");
}

#[test]
fn empty_name_is_rejected() {
    let mut w = Wallets::new();
    match w.create_wallet("") {
        Err(WalletError::NameInvalid(name)) => assert_eq!(name, ""),
        other => panic!("expected NameInvalid, got {:?}", other),
    }
    let kp = KeyPair { private_key: "aa".to_string(), public_key: "bb".to_string() };
    match w.add_wallet("", kp) {
        Err(WalletError::NameInvalid(name)) => assert_eq!(name, ""),
        other => panic!("expected NameInvalid, got {:?}", other),
    }
    assert!(w.wallets.is_empty());
}

#[test]
fn get_wallet_is_exact_lookup() {
    let mut w = Wallets::new();
    w.create_wallet("alice").unwrap();
    assert!(w.get_wallet("alice").is_some());
    assert!(w.get_wallet("Alice").is_none());
    assert!(w.get_wallet("alice ").is_none());
    assert!(w.get_wallet("").is_none());
}

#[test]
fn list_wallets_keeps_insertion_order() {
    let mut w = Wallets::new();
    w.create_wallet("alice").unwrap();
    w.create_wallet("bob").unwrap();
    w.create_wallet("carol").unwrap();
    let listed = w.list_wallets();
    let names: Vec<&str> = listed.iter().map(|(n, _)| n.as_str()).collect();
    assert_eq!(names, vec!["alice", "bob", "carol"]);
    assert_eq!(listed[1].1.public_key, w.get_wallet("bob").unwrap().public_key);
}

#[test]
fn created_wallet_has_well_formed_keys() {
    let mut w = Wallets::new();
    w.create_wallet("alice").unwrap();
    let kp = w.get_wallet("alice").unwrap();

    assert_eq!(kp.private_key.len(), 64);
    assert_eq!(kp.public_key.len(), 66);
    assert!(kp.private_key.chars().all(|c| c.is_ascii_hexdigit() && !c.is_ascii_uppercase()));
    assert!(kp.public_key.chars().all(|c| c.is_ascii_hexdigit() && !c.is_ascii_uppercase()));

    let sk_bytes = hex::decode(&kp.private_key).unwrap();
    let pk_bytes = hex::decode(&kp.public_key).unwrap();
    assert_eq!(sk_bytes.len(), 32);
    assert_eq!(pk_bytes.len(), 33);

    // the stored public key is the one secp256k1 derives from the secret
    let secp = secp256k1::Secp256k1::new();
    let sk = secp256k1::SecretKey::from_slice(&sk_bytes).unwrap();
    let derived = secp256k1::PublicKey::from_secret_key(&secp, &sk);
    assert_eq!(hex::encode(derived.serialize()), kp.public_key);
}
