use ledger_wallet::errors::WalletError;
use ledger_wallet::models::{KeyPair, Wallets};
use ledger_wallet::signing::verify_transfer;
use sha2::Digest;

const TS: u64 = 1_700_000_000;

fn store_with_alice() -> Wallets {
    let mut w = Wallets::new();
    w.create_wallet("alice").unwrap();
    w
}

#[test]
fn sign_then_verify_succeeds() {
    let mut w = store_with_alice();
    w.create_wallet("bob").unwrap();
    let tx = w.sign_transfer("alice", "bob", 10, TS).unwrap();

    assert_eq!(tx.from, w.get_wallet("alice").unwrap().public_key);
    assert_eq!(tx.to, w.get_wallet("bob").unwrap().public_key);
    assert_eq!(tx.amount, 10);
    assert_eq!(tx.timestamp, TS);
    assert_eq!(tx.signature.len(), 64);
    assert!(verify_transfer(&tx));
}

#[test]
fn tampered_amount_fails_verification() {
    let mut w = store_with_alice();
    let to = w.get_wallet("alice").unwrap().public_key.clone();
    let mut tx = w.sign_transfer("alice", &to, 10, TS).unwrap();
    assert!(verify_transfer(&tx));
    tx.amount = 11;
    assert!(!verify_transfer(&tx));
}

#[test]
fn tampered_recipient_fails_verification() {
    let mut w = store_with_alice();
    w.create_wallet("bob").unwrap();
    w.create_wallet("carol").unwrap();
    let mut tx = w.sign_transfer("alice", "bob", 10, TS).unwrap();
    tx.to = w.get_wallet("carol").unwrap().public_key.clone();
    assert!(!verify_transfer(&tx));
}

#[test]
fn tampered_timestamp_fails_verification() {
    let mut w = store_with_alice();
    let to = w.get_wallet("alice").unwrap().public_key.clone();
    let mut tx = w.sign_transfer("alice", &to, 10, TS).unwrap();
    tx.timestamp = TS + 1;
    assert!(!verify_transfer(&tx));
}

#[test]
fn wrong_sender_key_fails_verification() {
    let mut w = store_with_alice();
    w.create_wallet("mallory").unwrap();
    let to = w.get_wallet("alice").unwrap().public_key.clone();
    let mut tx = w.sign_transfer("alice", &to, 10, TS).unwrap();
    tx.from = w.get_wallet("mallory").unwrap().public_key.clone();
    assert!(!verify_transfer(&tx));
}

#[test]
fn signature_matches_reference_tuple_encoding() {
    // the canonical payload is the JSON array of the four fields; an
    // independent verifier rebuilding it that way accepts the signature
    let mut w = store_with_alice();
    w.create_wallet("bob").unwrap();
    let tx = w.sign_transfer("alice", "bob", 42, TS).unwrap();

    let payload = serde_json::to_string(&(&tx.from, &tx.to, tx.amount, tx.timestamp)).unwrap();
    let digest = sha2::Sha256::digest(payload.as_bytes());
    let msg = secp256k1::Message::from_digest_slice(&digest).unwrap();
    let sig = secp256k1::ecdsa::Signature::from_compact(&tx.signature).unwrap();
    let pk = secp256k1::PublicKey::from_slice(&hex::decode(&tx.from).unwrap()).unwrap();
    let secp = secp256k1::Secp256k1::verification_only();
    assert!(secp.verify_ecdsa(&msg, &sig, &pk).is_ok());
}

#[test]
fn sign_from_unknown_wallet_fails() {
    let w = store_with_alice();
    match w.sign_transfer("bob", "alice", 1, TS) {
        Err(WalletError::WalletNotFound(name)) => assert_eq!(name, "bob"),
        other => panic!("expected WalletNotFound, got {:?}", other),
    }
}

#[test]
fn sign_to_unresolvable_recipient_fails() {
    // "bob" does not exist yet: neither a name, a stored key, nor hex
    let w = store_with_alice();
    match w.sign_transfer("alice", "bob", 10, TS) {
        Err(WalletError::AddressInvalid(addr)) => assert_eq!(addr, "bob"),
        other => panic!("expected AddressInvalid, got {:?}", other),
    }
}

#[test]
fn sign_with_non_hex_private_key_fails() {
    let mut w = store_with_alice();
    let to = w.get_wallet("alice").unwrap().public_key.clone();
    let bad = KeyPair { private_key: "zz".to_string(), public_key: to.clone() };
    w.add_wallet("broken", bad).unwrap();
    match w.sign_transfer("broken", &to, 1, TS) {
        Err(WalletError::KeyDecodingFailed { .. }) => {}
        other => panic!("expected KeyDecodingFailed, got {:?}", other),
    }
}

#[test]
fn sign_with_invalid_scalar_fails() {
    // all-zero bytes decode as hex but are no valid secp256k1 scalar
    let mut w = store_with_alice();
    let to = w.get_wallet("alice").unwrap().public_key.clone();
    let bad = KeyPair { private_key: "00".repeat(32), public_key: to.clone() };
    w.add_wallet("broken", bad).unwrap();
    match w.sign_transfer("broken", &to, 1, TS) {
        Err(WalletError::InvalidPrivateKey { .. }) => {}
        other => panic!("expected InvalidPrivateKey, got {:?}", other),
    }
}

#[test]
fn repeated_signing_always_verifies() {
    let mut w = store_with_alice();
    let to = w.get_wallet("alice").unwrap().public_key.clone();
    let tx1 = w.sign_transfer("alice", &to, 5, TS).unwrap();
    let tx2 = w.sign_transfer("alice", &to, 5, TS).unwrap();
    assert!(verify_transfer(&tx1));
    assert!(verify_transfer(&tx2));
}
