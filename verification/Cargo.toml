[package]
name = "problemdetails"
version = "0.1.0"
edition = "2021"
publish = false

[dependencies]
http = "=1.5.0"
serde_json = "=1.0.154"
tower-http = { version = "=0.7.1", features = ["catch-panic"] }
axum = { version = "=0.8.9", default-features = false }
poem = "=3.1.12"
