[package]
name = "log2"
version = "0.1.0"
edition = "2021"
publish = false

[dependencies]
chrono = "0.4"
colored = "2"
flate2 = "1"
log = { version = "0.4", features = ["std"] }
