[package]
name = "txn_executor"
version = "0.1.0"
edition = "2021"
publish = false

[dependencies]
anyhow = "1"
aptos-sdk = "*"
async-trait = "0.1"
futures = "0.3"
rand = "0.7.3"
tiny-keccak = { version = "2", features = ["sha3"] }
tokio = { version = "1", features = ["time"] }
