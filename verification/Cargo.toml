[package]
name = "rathole"
version = "0.1.0"
edition = "2021"
publish = false

[dependencies]
anyhow = "1"
backoff = "0.4"
backon = { version = "1", features = ["tokio-sleep"] }
bincode = "1"
futures = "0.3"
hex = "0.4"
lazy_static = "1"
rand = "0.8"
sha2 = "0.10"
tokio = { version = "1", features = ["full"] }
tokio-util = { version = "0.7", features = ["compat"] }
tracing = "0.1"
yamux = "0.13"
