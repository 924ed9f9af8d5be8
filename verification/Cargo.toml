[package]
name = "x402_payment"
version = "0.1.0"
edition = "2021"
publish = false

[dependencies]
alloy = { version = "*", default-features = false, features = ["std", "reqwest", "network", "providers", "provider-http", "rpc-types", "signer-local"] }
dirs = "*"
eth-keystore = "*"
rand = "0.8"
serde = { version = "*", features = ["derive"] }
serde_json = "*"
tokio = { version = "*", features = ["macros", "rt-multi-thread"] }
