[package]
name = "rmlx_server"
version = "0.1.0"
edition = "2021"
publish = false

[dependencies]
anyhow = "1"
axum = "0.8"
chrono = "0.4"
futures = "0.3"
parking_lot = "0.12"
rusqlite = { version = "*", features = ["bundled"] }
serde = { version = "1", features = ["derive"] }
serde_json = "1"
tokenizers = { version = "*", default-features = false, features = ["fancy-regex"] }
tokio = { version = "1", features = ["full"] }
tracing = "0.1"
ureq = "3"
uuid = { version = "1", features = ["v4"] }

[dev-dependencies]
tempfile = "3"
