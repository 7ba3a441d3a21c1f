[package]
name = "safe_ffi"
version = "0.1.0"
edition = "2021"
publish = false

[dependencies]
safe_client = "*"
safe_nfs = "*"
