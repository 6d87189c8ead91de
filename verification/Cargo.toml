[package]
name = "cine_core"
version = "0.1.0"
edition = "2021"
publish = false

[dependencies]
base64 = "*"
bytemuck = "*"
image = { version = "*", default-features = false, features = ["png"] }
memmap2 = "*"
numpy = "*"
pyo3 = "*"
