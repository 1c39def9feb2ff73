[package]
name = "wynd"
version = "0.1.0"
edition = "2021"
publish = false

[dependencies]
uuid = { version = "=1.27.0", features = ["v4"] }
tokio = { version = "=1.53.2", features = ["full"] }
tokio-tungstenite = "=0.30.0"
futures = "=0.3.34"
hyper-tungstenite = "=0.30.0"
hyper = "=1.12.0"
hyper-util = "=0.1.21"
http-body-util = "=0.1.5"
