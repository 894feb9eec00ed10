[package]
name = "ai_bot"
version = "0.1.0"
edition = "2021"
publish = false

[dependencies]
serde = { version = "1", features = ["derive"] }
serde_json = "1"
uuid = { version = "1", features = ["v4"] }
chrono = "0.4"
rusqlite = { version = "*", features = ["bundled"] }
tokio = { version = "1", features = ["process", "io-util", "time", "rt", "sync"] }
dirs = "*"
which = "*"
tauri = { version = "2", default-features = false }
