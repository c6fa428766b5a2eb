[package]
name = "odt_parser"
version = "0.1.0"
edition = "2021"
publish = false

[dependencies]
xml = "=0.8.20"
zip = { version = "=8.6.0", default-features = false, features = ["deflate"] }
serde = { version = "=1.0.229", features = ["derive"] }
serde_json = "=1.0.151"
