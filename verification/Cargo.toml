[package]
name = "proto_sockets"
version = "0.1.0"
edition = "2021"
publish = false

[dependencies]
futures = "*"
prost = "*"
prost-types = "*"
tokio = { version = "*", features = ["net", "rt-multi-thread", "io-util", "sync"] }
tokio-util = { version = "*", features = ["codec"] }
