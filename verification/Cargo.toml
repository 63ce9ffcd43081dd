[package]
name = "ledger_wallet"
version = "0.1.0"
edition = "2021"
publish = false

[dependencies]
hex = "0.4"
secp256k1 = { version = "0.28", features = ["rand-std"] }
rand = "0.8"
sha2 = "0.10"
serde = { version = "1", features = ["derive"] }
serde_json = "1"
structopt = "0.3"
tokio = { version = "1", features = ["macros", "rt-multi-thread"] }
tonic = "0.11"
prost = "0.12"
chrono = "0.4"
