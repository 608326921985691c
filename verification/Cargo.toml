[package]
name = "chat_backend"
version = "0.1.0"
edition = "2021"
publish = false

[dependencies]
axum = { version = "0.4", features = ["ws"] }
serde = { version = "1", features = ["derive"] }
serde_json = "1"
thiserror = "1"
tokio = { version = "1", features = ["macros", "rt-multi-thread", "sync"] }
tower-http = { version = "0.2", features = ["cors"] }
