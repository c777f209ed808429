[package]
name = "h3_driver"
version = "0.1.0"
edition = "2021"
publish = false

[dependencies]
octets = "=0.3.7"
tokio = { version = "=1.54.1", features = ["sync", "rt", "macros"] }
datagram-socket = "=0.8.1"
