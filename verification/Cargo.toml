[package]
name = "simba_kernels"
version = "0.1.0"
edition = "2021"
publish = false

[dependencies]
crc32c = "*"

[dev-dependencies]
crc = "3"
rand = "0.8"
