use ledger_wallet::errors::WalletError;
use ledger_wallet::models::{KeyPair, Wallets};

#[test]
fn empty_store_round_trips() {
    let w = Wallets::new();
    let text = w.render_store();
    assert_eq!(text, "{\"wallets\":{}}");
    let back = Wallets::parse_store(&text).unwrap();
    assert!(back.wallets.is_empty());
}

#[test]
fn generated_store_round_trips() {
    let mut w = Wallets::new();
    w.create_wallet("alice").unwrap();
    w.create_wallet("bob").unwrap();
    let text = w.render_store();
    let back = Wallets::parse_store(&text).unwrap();

    assert_eq!(back.wallets.len(), 2);
    for (name, kp) in w.list_wallets() {
        let got = back.get_wallet(&name).unwrap();
        assert_eq!(got.private_key, kp.private_key);
        assert_eq!(got.public_key, kp.public_key);
    }
}

#[test]
fn awkward_names_round_trip() {
    let mut w = Wallets::new();
    let kp = KeyPair { private_key: "ab".repeat(32), public_key: "cd".repeat(33) };
    w.add_wallet("with \"quotes\"", kp.clone()).unwrap();
    w.add_wallet("back\\slash", kp.clone()).unwrap();
    w.add_wallet("tab\tand\nnewline", kp.clone()).unwrap();
    w.add_wallet("émilie", kp).unwrap();

    let text = w.render_store();
    let back = Wallets::parse_store(&text).unwrap();
    assert_eq!(back.wallets.len(), 4);
    for (name, kp) in w.list_wallets() {
        let got = back.get_wallet(&name).unwrap();
        assert_eq!(got.private_key, kp.private_key);
        assert_eq!(got.public_key, kp.public_key);
    }
}

#[test]
fn rendered_store_is_real_json() {
    let mut w = Wallets::new();
    w.create_wallet("alice").unwrap();
    w.add_wallet("we\"ird", KeyPair {
        private_key: "11".repeat(32),
        public_key: "22".repeat(33),
    })
    .unwrap();
    let text = w.render_store();

    let value: serde_json::Value = serde_json::from_str(&text).unwrap();
    let wallets = value.get("wallets").unwrap().as_object().unwrap();
    assert_eq!(wallets.len(), 2);
    let alice = wallets.get("alice").unwrap();
    assert_eq!(
        alice.get("public_key").unwrap().as_str().unwrap(),
        w.get_wallet("alice").unwrap().public_key
    );
    let weird = wallets.get("we\"ird").unwrap();
    assert_eq!(weird.get("private_key").unwrap().as_str().unwrap(), "11".repeat(32));
}

#[test]
fn malformed_texts_are_rejected() {
    for bad in [
        "",
        "{}",
        "{\"wallets\":{}",
        "{\"wallets\":{}}}",
        "not json at all",
        "{\"wallets\":{,}}",
        "{\"wallets\":{\"a\":{\"private_key\":\"x\"}}}",
        "{\"wallets\":{\"a\":{\"private_key\":\"aa\",\"public_key\":\"bb\"}}",
        "{\"wallets\":{\"a\":{\"private_key\":\"aa\",\"public_key\":\"bb\"}}} x",
        "{\"wallets\":{\"\":{\"private_key\":\"aa\",\"public_key\":\"bb\"}}}",
        "{\"wallets\":{\"a\":{\"private_key\":\"aa\",\"private_key\":\"bb\"}}}",
        "{\"wallets\":{\"bad\\uD800esc\":{\"private_key\":\"aa\",\"public_key\":\"bb\"}}}",
    ] {
        match Wallets::parse_store(bad) {
            Err(WalletError::StorageParse { .. }) => {}
            other => panic!("expected StorageParse for {:?}, got {:?}", bad, other),
        }
    }
}

#[test]
fn whitespace_between_tokens_is_accepted() {
    let text = " {\n  \"wallets\" : {\n    \"alice\" : {\n      \"private_key\" : \"aa\" ,\n      \"public_key\" : \"bb\"\n    }\n  }\n}\n";
    let back = Wallets::parse_store(text).unwrap();
    assert_eq!(back.wallets.len(), 1);
    let kp = back.get_wallet("alice").unwrap();
    assert_eq!(kp.private_key, "aa");
    assert_eq!(kp.public_key, "bb");
}

#[test]
fn pretty_printed_store_file_is_accepted() {
    // the shape a general JSON serializer writes the store in
    let mut kp = serde_json::Map::new();
    kp.insert("private_key".to_string(), serde_json::Value::String("11".repeat(32)));
    kp.insert("public_key".to_string(), serde_json::Value::String("22".repeat(33)));
    let mut wallets = serde_json::Map::new();
    wallets.insert("alice".to_string(), serde_json::Value::Object(kp));
    let mut root = serde_json::Map::new();
    root.insert("wallets".to_string(), serde_json::Value::Object(wallets));
    let text = serde_json::to_string_pretty(&serde_json::Value::Object(root)).unwrap();

    let back = Wallets::parse_store(&text).unwrap();
    assert_eq!(back.wallets.len(), 1);
    let kp = back.get_wallet("alice").unwrap();
    assert_eq!(kp.private_key, "11".repeat(32));
    assert_eq!(kp.public_key, "22".repeat(33));
}

#[test]
fn reversed_field_order_is_accepted() {
    let text = "{\"wallets\":{\"a\":{\"public_key\":\"bb\",\"private_key\":\"aa\"}}}";
    let back = Wallets::parse_store(text).unwrap();
    let kp = back.get_wallet("a").unwrap();
    assert_eq!(kp.private_key, "aa");
    assert_eq!(kp.public_key, "bb");
}

#[test]
fn standard_string_escapes_are_accepted() {
    let text = "{\"wallets\":{\"x\\n\\t\\\"\\\\\\/y\":{\"private_key\":\"aa\",\"public_key\":\"bb\"}}}";
    let back = Wallets::parse_store(text).unwrap();
    assert!(back.get_wallet("x\n\t\"\\/y").is_some());
}

#[test]
fn surrogate_pair_escape_is_accepted() {
    let text = "{\"wallets\":{\"\\uD83D\\uDE00\":{\"private_key\":\"aa\",\"public_key\":\"bb\"}}}";
    let back = Wallets::parse_store(text).unwrap();
    assert!(back.get_wallet("\u{1F600}").is_some());
}

#[test]
fn duplicate_names_are_rejected() {
    let entry = "\"a\":{\"private_key\":\"aa\",\"public_key\":\"bb\"}";
    let text = format!("{{\"wallets\":{{{},{}}}}}", entry, entry);
    match Wallets::parse_store(&text) {
        Err(WalletError::StorageParse { .. }) => {}
        other => panic!("expected StorageParse, got {:?}", other),
    }
}

#[test]
fn escaped_name_parses_back() {
    // a name escaped in the store text comes back as its plain characters
    let text = "{\"wallets\":{\"a\\u0022b\":{\"private_key\":\"aa\",\"public_key\":\"bb\"}}}";
    let back = Wallets::parse_store(text).unwrap();
    assert!(back.get_wallet("a\"b").is_some());
}
