[package]
name = "gitstream"
version = "0.1.0"
edition = "2021"
publish = false

[dependencies]
base64 = "=0.22.1"
getrandom = "=0.2.17"
serde = { version = "=1.0.229", features = ["derive"] }
serde_json = "=1.0.154"
thiserror = "=2.0.21"
tokio = { version = "=1.54.1", features = ["process", "io-util", "rt", "rt-multi-thread", "time", "sync"] }
reqwest = { version = "=0.12.28", default-features = false, features = ["json"] }
tauri = { version = "=2.12.5", default-features = false }
tauri-plugin-dialog = { version = "=2.8.4", default-features = false }
