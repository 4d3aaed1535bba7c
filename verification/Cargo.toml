[package]
name = "ipregistry"
version = "0.1.0"
edition = "2021"
publish = false

[dependencies]
lru = "*"
url = "2"
reqwest = { version = "0.12", default-features = false }
serde = { version = "1", features = ["derive"] }
serde_json = "1"
thiserror = "2"
tokio = { version = "1", features = ["time", "rt", "macros"] }
futures-util = "0.3"
