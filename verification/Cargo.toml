[package]
name = "yt_grab"
version = "0.1.0"
edition = "2021"
publish = false

[dependencies]
serde = { version = "1", features = ["derive"] }
serde_json = "1"
tauri = { version = "2", default-features = false }
tokio = { version = "1", features = ["process", "io-util", "sync", "time", "fs", "rt", "macros"] }
uuid = { version = "1", features = ["v4"] }
