[package]
name = "sessionfs"
version = "0.1.0"
edition = "2021"
publish = false

[dependencies]
memchr = "*"
serde_json = "*"
dirs = "*"
