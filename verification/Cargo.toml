[package]
name = "claspr"
version = "0.1.0"
edition = "2021"
publish = false

[dependencies]
opencl3 = "*"
opencl-sys = "*"
futures = "0.3"
