[package]
name = "wormhole_core"
version = "0.1.0"
edition = "2021"
publish = false

[dependencies]
solana-program = "1.18"
borsh = { version = "1", features = ["derive"] }

[dev-dependencies]
libsecp256k1 = "0.6"
