[package]
name = "phantomband"
version = "0.1.0"
edition = "2021"
publish = false

[dependencies]
chacha20poly1305 = "0.9"
rand = "0.8"
tokio = { version = "1", features = ["rt-multi-thread", "net", "io-util", "macros", "time", "sync"] }
log = "0.4"
env_logger = "0.10"
