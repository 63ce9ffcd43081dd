//! Error taxonomy of the wallet core.
//!
//! Each variant carries the context a caller needs to diagnose the failure:
//! the offending wallet name, address, or the message reported by the remote
//! service.  Failures tied to file handles or transport channels are the
//! caller's to represent; the variants here are the ones the core itself
//! decides.

use vstd::prelude::*;
use vstd::string::StringExecFns;

verus! {

/// A failure of one wallet-core operation.
#[derive(Debug, PartialEq)]
pub enum WalletError {
    /// A wallet with this name already exists in the store.
    WalletExists(String),
    /// The given wallet name is not allowed (names are non-empty).
    NameInvalid(String),
    /// No wallet with this name (or resolvable address) is known.
    WalletNotFound(String),
    /// The recipient string cannot be resolved to a valid address.
    AddressInvalid(String),
    /// The stored wallet file does not parse as a wallet store.
    StorageParse { message: String },
    /// A stored key is not valid hexadecimal text.
    KeyDecodingFailed { message: String },
    /// The decoded private key is not a valid curve scalar.
    InvalidPrivateKey { message: String },
    /// The remote service explicitly rejected a submitted transaction.
    TransactionFailed { message: String },
    /// The remote service explicitly rejected a faucet request.
    FaucetFailed { message: String },
}

impl WalletError {
    /// The human-readable message for this error, with its context inlined.
    pub fn describe(&self) -> (r: String)
        ensures
            *self matches WalletError::WalletExists(name)
                ==> r@ == "Wallet '"@ + name@ + "' already exists"@,
            *self matches WalletError::NameInvalid(name)
                ==> r@ == "Invalid wallet name: '"@ + name@ + "'"@,
            *self matches WalletError::WalletNotFound(name)
                ==> r@ == "Wallet '"@ + name@ + "' not found"@,
            *self matches WalletError::AddressInvalid(address)
                ==> r@ == "Invalid address: "@ + address@,
            *self matches WalletError::StorageParse { message }
                ==> r@ == "Failed to parse JSON: "@ + message@,
            *self matches WalletError::KeyDecodingFailed { message }
                ==> r@ == "Failed to decode key: "@ + message@,
            *self matches WalletError::InvalidPrivateKey { message }
                ==> r@ == "Invalid private key: "@ + message@,
            *self matches WalletError::TransactionFailed { message }
                ==> r@ == "Transaction failed: "@ + message@,
            *self matches WalletError::FaucetFailed { message }
                ==> r@ == "Faucet request failed: "@ + message@,
    {
        let mut s = String::new();
        match self {
            WalletError::WalletExists(name) => {
                s.append("Wallet '");
                s.append(name.as_str());
                s.append("' already exists");
            }
            WalletError::NameInvalid(name) => {
                s.append("Invalid wallet name: '");
                s.append(name.as_str());
                s.append("'");
            }
            WalletError::WalletNotFound(name) => {
                s.append("Wallet '");
                s.append(name.as_str());
                s.append("' not found");
            }
            WalletError::AddressInvalid(address) => {
                s.append("Invalid address: ");
                s.append(address.as_str());
            }
            WalletError::StorageParse { message } => {
                s.append("Failed to parse JSON: ");
                s.append(message.as_str());
            }
            WalletError::KeyDecodingFailed { message } => {
                s.append("Failed to decode key: ");
                s.append(message.as_str());
            }
            WalletError::InvalidPrivateKey { message } => {
                s.append("Invalid private key: ");
                s.append(message.as_str());
            }
            WalletError::TransactionFailed { message } => {
                s.append("Transaction failed: ");
                s.append(message.as_str());
            }
            WalletError::FaucetFailed { message } => {
                s.append("Faucet request failed: ");
                s.append(message.as_str());
            }
        }
        s
    }
}

} // verus!
