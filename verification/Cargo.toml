[package]
name = "filedrop"
version = "0.1.0"
edition = "2021"
publish = false

[dependencies]
actix-files = "0.6"
actix-multipart = "0.6"
actix-web = "4"
anyhow = "1"
env_logger = "0.10"
futures-util = "0.3"
lazy_static = "1"
log = "0.4"
rand = "0.8"
tokio = { version = "1", features = ["fs", "io-util", "macros", "rt-multi-thread", "sync", "time"] }
urlencoding = "2"
