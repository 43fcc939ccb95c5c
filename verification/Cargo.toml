[package]
name = "jup-sdk"
version = "0.1.0"
edition = "2021"
publish = false

[dependencies]
reqwest = { version = "=0.13.5", default-features = false, features = ["json", "query"] }
serde = { version = "=1.0.229", features = ["derive"] }
serde_json = "=1.0.154"
solana-commitment-config = "=3.1.1"
solana-sdk = "=5.0.0"
tokio = { version = "=1.54.1", default-features = false, features = ["time", "rt", "macros"] }
