[package]
name = "trade_approval"
version = "0.1.0"
edition = "2021"
publish = false

[dependencies]
bech32 = "=0.12.0"
chrono = "=0.4.45"
minicbor = { version = "=2.3.0", features = ["std"] }
sha256 = { version = "=1.6.0", default-features = false }
sled = "=0.34.7"
uuid7 = "=1.8.0"
