use ledger_wallet::models::{KeyPair, Wallets};

#[test]
fn name_and_own_key_resolve_to_same_address() {
    let mut w = Wallets::new();
    w.create_wallet("alice").unwrap();
    let pk = w.get_wallet("alice").unwrap().public_key.clone();

    let by_name = w.resolve_address("alice").unwrap();
    let by_key = w.resolve_address(&pk).unwrap();
    assert_eq!(by_name, by_key);
    assert_eq!(by_name, pk);
}

#[test]
fn unresolvable_strings_give_none() {
    let mut w = Wallets::new();
    w.create_wallet("alice").unwrap();

    // not a name, not hex at all
    assert!(w.resolve_address("bob").is_none());
    assert!(w.resolve_address("not-a-key!").is_none());
    // odd-length hex
    assert!(w.resolve_address("abc").is_none());
    // valid hex, but no curve point (all zero bytes)
    let zeros = "00".repeat(33);
    assert!(w.resolve_address(&zeros).is_none());
    // empty input
    assert!(w.resolve_address("").is_none());
}

#[test]
fn foreign_valid_key_resolves_to_itself() {
    // a key that some other store generated, never seen locally
    let mut other = Wallets::new();
    other.create_wallet("someone").unwrap();
    let foreign_pk = other.get_wallet("someone").unwrap().public_key.clone();

    let w = Wallets::new();
    let resolved = w.resolve_address(&foreign_pk).unwrap();
    assert_eq!(resolved, foreign_pk);
}

#[test]
fn local_name_shadows_foreign_key() {
    // a wallet whose *name* is exactly some valid foreign public key must
    // resolve to the local wallet's key, not pass through as an address
    let mut other = Wallets::new();
    other.create_wallet("someone").unwrap();
    let foreign_pk = other.get_wallet("someone").unwrap().public_key.clone();

    let mut w = Wallets::new();
    let local = KeyPair {
        private_key: "11".repeat(32),
        public_key: "aa22bc".to_string(),
    };
    w.add_wallet(&foreign_pk, local).unwrap();

    let resolved = w.resolve_address(&foreign_pk).unwrap();
    assert_eq!(resolved, "aa22bc");
}

#[test]
fn stored_key_resolves_before_general_parse() {
    // tier two: the exact public key of a stored wallet passes through
    let mut w = Wallets::new();
    w.create_wallet("alice").unwrap();
    let pk = w.get_wallet("alice").unwrap().public_key.clone();
    assert_eq!(w.resolve_address(&pk).unwrap(), pk);
}
