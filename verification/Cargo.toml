[package]
name = "parallel_stream"
version = "0.1.0"
edition = "2021"
publish = false

[dependencies]
async-std = { version = "*", features = ["unstable"] }
pin-project-lite = "*"
