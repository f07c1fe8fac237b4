[package]
name = "dusty"
version = "0.1.0"
edition = "2021"
publish = false

[dependencies]
slack-morphism = { version = "*", features = ["hyper", "axum"] }
axum = "*"
tokio = { version = "*", features = ["full"] }
hyper = "*"
bytes = "*"
http-body-util = "*"
tracing = "*"
tracing-subscriber = "*"
