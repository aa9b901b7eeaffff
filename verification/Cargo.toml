[package]
name = "dronelink"
version = "0.1.0"
edition = "2021"
publish = false

[dependencies]
tokio = { version = "*", features = ["full"] }
tokio-serial = "*"
tokio-tungstenite = "*"
futures-util = "*"
tungstenite = "*"
crossbeam-channel = "*"
