[package]
name = "rust_https_server"
version = "0.1.0"
edition = "2021"
publish = false

[dependencies]
chrono = "0.4"
bufstream = "0.1"
openssl = "0.10"
clap = "4"

[dev-dependencies]
byteorder = "1"
