[package]
name = "async_rx"
version = "0.1.0"
edition = "2021"
publish = false

[dependencies]
futures-core = "0.3"
pin-project-lite = "0.2"

[dev-dependencies]
futures-util = "0.3"
tokio = { version = "1", features = ["sync"] }
tokio-stream = "0.1"
