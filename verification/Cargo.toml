[package]
name = "mqtt-proto"
version = "0.1.0"
edition = "2021"
publish = false

[dependencies]
bytes = { version = "1", default-features = false }
simdutf8 = { version = "0.1", default-features = false }
embedded-io-async = "*"
tokio = { version = "1", default-features = false, features = ["io-util"] }
