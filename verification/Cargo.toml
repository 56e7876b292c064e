[package]
name = "produce_request"
version = "0.1.0"
edition = "2021"
publish = false

[dependencies]
bytes = "1"
tracing = "0.1"
