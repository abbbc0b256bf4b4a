[package]
name = "assets_lens"
version = "0.1.0"
edition = "2021"
publish = false

[dependencies]
maclarian = { version = "=0.1.3", default-features = false }
base64 = "0.22"
serde = { version = "1", features = ["derive"] }
serde_json = "1"
