[package]
name = "gamesync"
version = "0.1.0"
edition = "2021"
publish = false

[dependencies]
unicode-segmentation = "*"
flume = "*"
uuid = { version = "*", features = ["v4"] }
chrono = "*"
serde_json = "*"
