[package]
name = "runes_sdk"
version = "0.1.0"
edition = "2021"
publish = false

[dependencies]
hex = "*"
hmac = "*"
sha2 = "*"
url = "*"
serde = { version = "*", features = ["derive"] }
serde_json = "*"
reqwest = { version = "*", default-features = false }
tokio = { version = "*", features = ["time", "sync", "rt", "macros"] }
futures = "*"
