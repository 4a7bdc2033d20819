[package]
name = "slip-codec"
version = "0.4.0"
edition = "2021"
publish = false

[dependencies]
asynchronous-codec = "=0.6.2"
bytes = "=1.12.1"
tokio-util = { version = "=0.7.20", features = ["codec"] }
