[package]
name = "chill"
version = "0.1.0"
edition = "2021"
publish = false

[dependencies]
hyper = { version = "1", default-features = false }
mime = "0.3"
serde = { version = "1", features = ["derive"] }
serde_json = "1"
url = "2"
uuid = "1"
