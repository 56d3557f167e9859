[package]
name = "open_cowork"
version = "0.1.0"
edition = "2021"
publish = false

[dependencies]
futures-util = "0.3"
glob = "0.3"
log = "0.4"
reqwest = { version = "0.12", features = ["json", "stream"] }
rusqlite = { version = "*", features = ["bundled"] }
serde = { version = "1", features = ["derive"] }
serde_json = "1"
tokio = { version = "1", features = ["sync", "time"] }
