[package]
name = "tipbot_core"
version = "0.1.0"
edition = "2021"
publish = false

[dependencies]
chrono = "0.4"
emojis = "0.6"
uuid = { version = "1", features = ["v4"] }
vrsc = "*"
