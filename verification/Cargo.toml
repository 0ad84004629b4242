[package]
name = "polygon"
version = "0.1.0"
edition = "2021"
publish = false

[dependencies]
log = "0.4"
rdev = "0.5"
serde = { version = "1", features = ["derive"] }
serde_json = "1"
tauri = { version = "2", default-features = false }
thiserror = "1"
