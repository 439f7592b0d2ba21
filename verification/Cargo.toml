[package]
name = "pg-starttls"
version = "0.1.0"
edition = "2021"
publish = false

[dependencies]
humantime = "2"
socket2 = { version = "0.6", features = ["all"] }
tokio = { version = "1", features = ["io-util", "macros", "net", "rt-multi-thread", "signal", "sync", "time"] }
