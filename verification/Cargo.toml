[package]
name = "minihttp"
version = "0.1.0"
edition = "2021"
publish = false

[dependencies]
httparse = "1"
time = { version = "0.3", features = ["formatting"] }
futures = "0.1"
tokio-core = "0.1"
tokio-proto = "0.1"
tokio-service = "0.1"
