[package]
name = "silex_ingress"
version = "0.1.0"
edition = "2021"
publish = false

[dependencies]
base64 = "0.21"
dashmap = "5"
httparse = "1"
rustls = "0.21"
rustls-pemfile = "1"
serde = { version = "1", features = ["derive"] }
serde_json = "1"
socket2 = { version = "0.5", features = ["all"] }
tokio = { version = "1", features = ["full"] }
tokio-rustls = "0.24"
tokio-util = "0.7"
