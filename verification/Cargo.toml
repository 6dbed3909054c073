[package]
name = "idlib"
version = "0.1.0"
edition = "2021"
publish = false

[dependencies]
anyhow = "=1.0.104"
askama = "=0.11.1"
axum = { version = "=0.5.17", features = ["headers"] }
base64 = "=0.13.1"
blob-uuid = "=0.5.0"
hmac = "=0.12.1"
reqwest = { version = "=0.11.27", default-features = false, features = ["json"] }
rusqlite = { version = "=0.28.0", features = ["bundled"] }
serde = { version = "=1.0.229", features = ["derive"] }
serde_json = { version = "=1.0.154", features = ["raw_value"] }
serde_rusqlite = "=0.31.0"
sha2 = "=0.10.9"
time = "=0.3.55"
tokio-rusqlite = "=0.3.0"
urlencoding = "=2.1.3"
