[package]
name = "whitenoise"
version = "0.1.0"
edition = "2021"
publish = false

[dependencies]
hex = "0.4"
nostr-sdk = { version = ">=0.36, <0.46", features = ["all-nips"] }
serde_json = "1"
tokio = { version = "1", default-features = false, features = ["time"] }
tracing = "0.1"
