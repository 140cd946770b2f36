[package]
name = "tubez"
version = "0.1.0"
edition = "2021"
publish = false

[dependencies]
serde_json = "1"
hyper = { version = "0.14", features = ["client", "server", "http2", "tcp", "stream"] }
tokio = { version = "1", features = ["rt", "sync", "time"] }
futures = "0.3"
log = "0.4"
