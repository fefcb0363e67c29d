[package]
name = "clow"
version = "0.1.0"
edition = "2021"
publish = false

[dependencies]
cudarc = { version = "0.19", default-features = false, features = ["std", "driver", "cuda-12080", "dynamic-loading"] }
log = "=0.4.35"
