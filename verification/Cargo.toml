[package]
name = "framed_client"
version = "0.1.0"
edition = "2021"
publish = false

[dependencies]
bytes = "1"
chan = "0.1"
uuid = { version = "1", features = ["v4"] }
