//! The decisions a wallet client makes around its remote calls.
//!
//! One balance query, one submission, one faucet request: the caller
//! performs the exchange; these functions decide what may be sent and what
//! a response means, exactly as stated.

use vstd::prelude::*;

use crate::errors::WalletError;
use crate::models::{has_name, lookup, Wallets};
use crate::store::resolve_spec;

verus! {

impl Wallets {
    /// The address a balance query may be issued for: the resolved input,
    /// or an unknown-wallet failure (and then no query is owed at all).
    pub fn prepare_balance_query(&self, wallet_name_or_key: &str) -> (r: Result<
        String,
        WalletError,
    >)
        requires
            self.wf(),
        ensures
            resolve_spec(self@, wallet_name_or_key@) is None ==> (r matches Err(
                WalletError::WalletNotFound(n),
            ) && n@ == wallet_name_or_key@),
            resolve_spec(self@, wallet_name_or_key@) matches Some(a) ==> (r matches Ok(addr)
                && addr@ == a),
    {
        match self.resolve_address(wallet_name_or_key) {
            None => Err(WalletError::WalletNotFound(wallet_name_or_key.to_owned())),
            Some(addr) => Ok(addr),
        }
    }

    /// The address a faucet request may be issued for: the named wallet's
    /// own public key, or an unknown-wallet failure.
    pub fn prepare_faucet_request(&self, wallet_name: &str) -> (r: Result<String, WalletError>)
        requires
            self.wf(),
        ensures
            !has_name(self@, wallet_name@) ==> (r matches Err(WalletError::WalletNotFound(n))
                && n@ == wallet_name@),
            has_name(self@, wallet_name@) ==> (r matches Ok(addr) && addr@ == lookup(
                self@,
                wallet_name@,
            ).public_key),
    {
        match self.get_wallet(wallet_name) {
            None => Err(WalletError::WalletNotFound(wallet_name.to_owned())),
            Some(kp) => Ok(kp.public_key.clone()),
        }
    }
}

/// What a submission response means: an explicit remote rejection is a
/// transaction failure carrying the remote's own message, not a transport
/// error.
pub fn interpret_submit_response(success: bool, message: String) -> (r: Result<
    bool,
    WalletError,
>)
    ensures
        success ==> (r matches Ok(b) && b),
        !success ==> (r matches Err(WalletError::TransactionFailed { message: m }) && m@
            == message@),
{
    if success {
        Ok(true)
    } else {
        Err(WalletError::TransactionFailed { message })
    }
}

/// What a faucet response means: the granted amount, or an explicit
/// rejection carrying the remote's own message.
pub fn interpret_faucet_response(success: bool, amount: u64, message: String) -> (r: Result<
    u64,
    WalletError,
>)
    ensures
        success ==> (r matches Ok(a) && a == amount),
        !success ==> (r matches Err(WalletError::FaucetFailed { message: m }) && m@ == message@),
{
    if success {
        Ok(amount)
    } else {
        Err(WalletError::FaucetFailed { message })
    }
}

} // verus!
