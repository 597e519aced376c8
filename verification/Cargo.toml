[package]
name = "rust_potato_server"
version = "0.1.0"
edition = "2021"
publish = false

[dependencies]
lz4 = "1"
rand = "0.8"
