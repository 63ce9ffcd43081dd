use ledger_wallet::client::{interpret_faucet_response, interpret_submit_response};
use ledger_wallet::errors::WalletError;
use ledger_wallet::models::Wallets;

#[test]
fn balance_query_for_unresolved_name_fails_without_rpc() {
    let w = Wallets::new();
    match w.prepare_balance_query("nobody") {
        Err(WalletError::WalletNotFound(name)) => assert_eq!(name, "nobody"),
        other => panic!("expected WalletNotFound, got {:?}", other),
    }
}

#[test]
fn balance_query_resolves_name_to_address() {
    let mut w = Wallets::new();
    w.create_wallet("alice").unwrap();
    let pk = w.get_wallet("alice").unwrap().public_key.clone();
    assert_eq!(w.prepare_balance_query("alice").unwrap(), pk);
    assert_eq!(w.prepare_balance_query(&pk).unwrap(), pk);
}

#[test]
fn faucet_request_needs_local_wallet() {
    let mut w = Wallets::new();
    w.create_wallet("alice").unwrap();
    let pk = w.get_wallet("alice").unwrap().public_key.clone();

    assert_eq!(w.prepare_faucet_request("alice").unwrap(), pk);
    match w.prepare_faucet_request("bob") {
        Err(WalletError::WalletNotFound(name)) => assert_eq!(name, "bob"),
        other => panic!("expected WalletNotFound, got {:?}", other),
    }
    // a raw address is not a local wallet name
    match w.prepare_faucet_request(&pk) {
        Err(WalletError::WalletNotFound(_)) => {}
        other => panic!("expected WalletNotFound, got {:?}", other),
    }
}

#[test]
fn remote_rejection_carries_its_message() {
    match interpret_submit_response(false, "insufficient funds".to_string()) {
        Err(WalletError::TransactionFailed { message }) => {
            assert_eq!(message, "insufficient funds")
        }
        other => panic!("expected TransactionFailed, got {:?}", other),
    }
}

#[test]
fn remote_success_passes_through() {
    assert!(interpret_submit_response(true, String::new()).unwrap());
    assert_eq!(interpret_faucet_response(true, 100, String::new()).unwrap(), 100);
}

#[test]
fn faucet_rejection_carries_its_message() {
    match interpret_faucet_response(false, 0, "faucet empty".to_string()) {
        Err(WalletError::FaucetFailed { message }) => assert_eq!(message, "faucet empty"),
        other => panic!("expected FaucetFailed, got {:?}", other),
    }
}

#[test]
fn errors_describe_themselves_with_context() {
    assert_eq!(
        WalletError::WalletExists("alice".to_string()).describe(),
        "Wallet 'alice' already exists"
    );
    assert_eq!(
        WalletError::WalletNotFound("bob".to_string()).describe(),
        "Wallet 'bob' not found"
    );
    assert_eq!(
        WalletError::AddressInvalid("xyz".to_string()).describe(),
        "Invalid address: xyz"
    );
    assert_eq!(
        WalletError::NameInvalid("".to_string()).describe(),
        "Invalid wallet name: ''"
    );
    assert_eq!(
        WalletError::TransactionFailed { message: "insufficient funds".to_string() }.describe(),
        "Transaction failed: insufficient funds"
    );
    assert_eq!(
        WalletError::FaucetFailed { message: "no".to_string() }.describe(),
        "Faucet request failed: no"
    );
}
