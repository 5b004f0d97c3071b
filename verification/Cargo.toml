[package]
name = "gmocoin"
version = "0.1.0"
edition = "2021"
publish = false

[dependencies]
hmac = "0.12"
sha2 = "0.10"
serde_json = "1"
serde = { version = "1", features = ["derive"] }
reqwest = { version = "0.12", default-features = false, features = ["json"] }
tokio = { version = "1", features = ["rt", "time", "sync", "macros"] }
tokio-tungstenite = "0.24"
futures-util = "0.3"
url = "2"

[dev-dependencies]
hex = "0.4"
