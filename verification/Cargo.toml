[package]
name = "uuideal"
version = "0.1.0"
edition = "2021"
publish = false

[dependencies]
uuid = { version = "1", features = ["v1", "v3", "v4", "v5", "v6", "v7", "std"] }
rand = "0.9"
pyo3-ffi = "*"
