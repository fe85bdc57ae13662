[package]
name = "nonblock-logger"
version = "0.1.0"
edition = "2021"
publish = false

[dependencies]
log = "0.4"
crossbeam-channel = "0.5"
chrono = { version = "0.4", default-features = false, features = ["clock"] }
colored = "*"
