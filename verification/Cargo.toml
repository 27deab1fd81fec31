[package]
name = "remux_server"
version = "0.31.1"
edition = "2021"
publish = false

[dependencies]
anyhow = "1"
serde_json = "1"
tokio = { version = "1", features = ["rt"] }
tracing = "0.1"
url = "2"
uuid = { version = "1", features = ["v4"] }
