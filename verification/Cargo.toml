[package]
name = "resiliencx"
version = "0.1.1"
edition = "2021"
publish = false

[dependencies]
async-trait = "0.1"
tokio = { version = "1", features = ["time"] }
tracing = "0.1"
