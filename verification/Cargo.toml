[package]
name = "engine_proxy"
version = "0.1.0"
edition = "2021"
publish = false

[dependencies]
http = "0.2"
hyper = { version = "0.14", features = ["client", "server", "http1", "tcp"] }
unicase = "2"
tokio = { version = "1", features = ["rt-multi-thread", "macros"] }
futures-util = "0.3"
log = "0.4"
env_logger = "0.9"
