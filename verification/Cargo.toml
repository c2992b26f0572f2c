[package]
name = "voice_core"
version = "0.1.0"
edition = "2021"
publish = false

[dependencies]
uuid = { version = "1", features = ["v7"] }
sha2 = "0.10"
base64 = "0.22"
chrono = "0.4"
hostname = "0.4"
serde = { version = "1", features = ["derive"] }
serde_json = "1"
thiserror = "1"
dirs = "5"
tracing = "0.1"
tokio = { version = "1", features = ["rt-multi-thread", "net", "sync", "macros"] }
axum = "0.7"
rusqlite = { version = "0.32", features = ["bundled"] }
