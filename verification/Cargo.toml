[package]
name = "getter"
version = "0.1.0"
edition = "2021"
publish = false

[dependencies]
url = "2"
hyper = { version = "0.14", features = ["client", "http1", "tcp"] }
hyper-tls = "0.5"
serde = { version = "1", features = ["derive"] }
serde_json = "1"
