[package]
name = "zotepad_sync"
version = "0.1.0"
edition = "2021"
publish = false

[dependencies]
rusqlite = { version = "0.32", features = ["bundled"] }
chrono = "0.4"
serde = { version = "1", features = ["derive"] }
serde_json = "1"
log = "0.4"
axum = "0.7"
tokio = { version = "1", features = ["rt-multi-thread", "net", "sync"] }
tower-http = { version = "0.6", features = ["cors"] }
image = "0.25"
