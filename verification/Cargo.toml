[package]
name = "prediction_market_event"
version = "0.1.0"
edition = "2021"
publish = false

[dependencies]
nostr = { version = "0.40", default-features = false, features = ["std"] }
rand = "0.8"
serde = { version = "1", features = ["derive"] }
serde_json = "1"
sha2 = "0.10"
thiserror = "1"
