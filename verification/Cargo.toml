[package]
name = "onec-debug-adapter"
version = "0.1.0"
edition = "2021"
publish = false

[dependencies]
anyhow = "1"
base64 = "0.22"
quick-xml = "0.37"
serde = { version = "1", features = ["derive"] }
serde_json = "1"
ureq = { version = "3", default-features = false }
uuid = { version = "1", features = ["v4"] }
