[package]
name = "payment_channel"
version = "0.1.0"
edition = "2021"
publish = false

[dependencies]
bitcoin = "0.32"
lightning = "0.1"
lightning-block-sync = { version = "0.1", features = ["rpc-client", "tokio"] }
tokio = { version = "1", features = ["rt", "time"] }
serde_json = "1"
base64 = "*"
