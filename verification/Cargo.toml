[package]
name = "alarm_server"
version = "0.1.0"
edition = "2021"
publish = false

[dependencies]
serde_json = "*"
toml = "*"
yaml-rust = "*"
reqwest = { version = "*", default-features = false, features = ["blocking"] }
chrono = { version = "*", default-features = false, features = ["std", "clock"] }
tokio = { version = "*", features = ["full"] }
amqprs = "*"
tokio-tungstenite = "*"
futures-util = "*"
