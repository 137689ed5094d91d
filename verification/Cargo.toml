[package]
name = "torrent_engine"
version = "0.1.0"
edition = "2021"
publish = false

[dependencies]
sha1 = "0.10"
anyhow = "1"
serde = { version = "1", features = ["derive"] }
serde_derive = "1"
serde_bencode = "0.2"
serde_bytes = "0.11"
tokio = { version = "1", features = ["full"] }
reqwest = { version = "0.12", default-features = false }
