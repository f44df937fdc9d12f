[package]
name = "line_server"
version = "0.1.0"
edition = "2021"
publish = false

[dependencies]
anyhow = "*"
clap = { version = "*", features = ["derive"] }
env_logger = "*"
log = "*"
tokio = { version = "*", features = ["rt-multi-thread", "net", "io-util", "sync", "macros"] }
