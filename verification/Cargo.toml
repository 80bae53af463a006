[package]
name = "ragnarok_auth"
version = "0.1.0"
edition = "2021"
publish = false

[dependencies]
anyhow = "1"
bufstream = "0.1"
byteorder = "1"
env_logger = "*"
log = "0.4"
tokio = { version = "1", features = ["io-util", "macros", "net", "rt-multi-thread", "sync", "time"] }
