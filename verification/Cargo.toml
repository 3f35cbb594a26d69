[package]
name = "antigravity_client"
version = "0.1.0"
edition = "2021"
publish = false

[dependencies]
serde_json = "1"
dirs = "5"
rusqlite = { version = "0.31", features = ["bundled"] }
reqwest = { version = "0.12", default-features = false, features = ["rustls-tls"] }
tokio = { version = "1", features = ["sync", "rt-multi-thread", "macros"] }
hickory-resolver = { version = "0.24", features = ["tokio-runtime"] }
