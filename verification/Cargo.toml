[package]
name = "evm_accounts"
version = "0.1.0"
edition = "2021"
publish = false

[dependencies]
libsecp256k1 = "*"
tiny-keccak = { version = "2", features = ["keccak"] }
