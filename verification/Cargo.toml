[package]
name = "chunk_address"
version = "0.1.0"
edition = "2021"
publish = false

[dependencies]
num-bigint = "0.4"
num-traits = "0.2"
lazy_static = "1"
tokio = { version = "1", features = ["rt-multi-thread", "macros", "time"] }
rand = "0.8"
futures = "0.3"
