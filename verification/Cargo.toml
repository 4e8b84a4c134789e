[package]
name = "dolphin_core"
version = "0.1.0"
edition = "2021"
publish = false

[dependencies]
bincode = "1.3"
bytes = "1"
futures = "0.3"
log = "0.4"
serde = { version = "1", features = ["derive"] }
tokio = { version = "1", features = ["net", "rt", "sync"] }
tokio-util = { version = "0.7", features = ["codec"] }
