[package]
name = "stirn"
version = "0.1.0"
edition = "2021"
publish = false

[dependencies]
flate2 = "1"
tokio = { version = "1", features = ["rt-multi-thread", "macros", "net", "io-util"] }
lazy_static = "1"
