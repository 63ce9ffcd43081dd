//! Wallet key store and transaction-signing core for a remote ledger service.
//!
//! The library keeps named secp256k1 key pairs, resolves user-supplied
//! strings to chain addresses, renders and parses the on-disk wallet store,
//! and builds and signs canonical transfer payloads.  File and network I/O
//! stay with the caller; every function here is specified and verified.

pub mod client;
pub mod crypto;
pub mod errors;
pub mod hexfmt;
pub mod jsonfmt;
pub mod models;
pub mod signing;
pub mod storage;
pub mod store;
pub mod strutil;

pub use errors::WalletError;
pub use models::{KeyPair, Wallets};
