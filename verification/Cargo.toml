[package]
name = "session"
version = "0.1.0"
edition = "2021"
publish = false

[dependencies]
regex = "1"
rsip = "*"
sdp-types = "*"
tokio = { version = "1", features = ["sync", "time"] }
