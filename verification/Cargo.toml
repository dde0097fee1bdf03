[package]
name = "ecson"
version = "0.2.4"
edition = "2021"
publish = false

[dependencies]
bevy_ecs = "0.17"
tokio = { version = "1", features = ["rt-multi-thread", "net", "sync", "macros", "time"] }
tokio-tungstenite = "*"
futures-util = { version = "0.3", features = ["sink"] }
