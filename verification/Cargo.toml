[package]
name = "guest_cache"
version = "0.1.0"
edition = "2021"
publish = false

[dependencies]
serde_json = "=1.0.154"
url = "=2.5.8"
reqwest = { version = "=0.12.28", default-features = false, features = ["blocking"] }
