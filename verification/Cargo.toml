[package]
name = "wallet713"
version = "0.1.0"
edition = "2021"
publish = false

[dependencies]
colored = "*"
grin_core = "*"
rand = "*"
secp256k1 = { version = "*", features = ["rand"] }
serde = { version = "*", features = ["derive"] }
sha2 = "*"
toml = "*"
