[package]
name = "peckboard_api_plugin"
version = "0.2.0"
edition = "2021"
publish = false

[dependencies]
extism-pdk = "=1.4.1"
serde = { version = "=1.0.229", features = ["derive"] }
serde_json = "=1.0.154"
sha2 = "0.10"
