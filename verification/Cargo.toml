[package]
name = "sharded_ringbuf"
version = "0.3.0"
edition = "2021"
publish = false

[dependencies]
fastrand = "2"
tokio = { version = "1", features = ["rt", "sync", "macros"] }
crossbeam-utils = "0.8"
futures-util = "0.3"
