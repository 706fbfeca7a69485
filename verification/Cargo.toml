[package]
name = "metadata_bridge"
version = "0.1.0"
edition = "2021"
publish = false

[dependencies]
axum = { version = "0.7", default-features = false, features = ["json"] }
dashmap = "6"
log = "0.4"
log4rs = "1"
serde = { version = "1", features = ["derive"] }
serde_json = "1"
