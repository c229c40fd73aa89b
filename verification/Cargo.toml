[package]
name = "fedimint_consensus"
version = "0.1.0"
edition = "2021"
publish = false

[dependencies]
anyhow = "1"
async-channel = "2"
bitcoin_hashes = "0.11"
futures = "0.3"
jsonrpsee = { version = "0.22", features = ["server"] }
serde = { version = "1", features = ["derive"] }
serde_json = "1"
threshold_crypto = "0.4"
tokio = { version = "1", features = ["full"] }
tracing = "0.1"
