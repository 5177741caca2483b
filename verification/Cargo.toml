[package]
name = "qpnet"
version = "0.1.0"
edition = "2021"
publish = false

[dependencies]
bytes = "1"
futures-util = "0.3"
quinn = "0.8"
tokio = { version = "1", features = ["rt-multi-thread", "macros", "time"] }
rustls = { version = "0.20", features = ["dangerous_configuration", "quic"] }
rcgen = "0.10"
