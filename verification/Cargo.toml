[package]
name = "openchamber_tauri"
version = "0.1.0"
edition = "2021"
publish = false

[dependencies]
serde = { version = "1", features = ["derive"] }
serde_json = "1"
url = "2"
anyhow = "1"
log = "0.4"
once_cell = "1"
tokio = { version = "1", features = ["process", "io-util", "net", "time", "sync", "fs", "rt", "macros"] }
reqwest = { version = "0.12", default-features = false, features = ["json"] }
