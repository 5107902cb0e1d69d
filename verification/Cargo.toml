[package]
name = "runemark"
version = "0.3.0"
edition = "2021"
publish = false

[dependencies]
unicode-width = "0.2"
libc = "0.2"
indicatif = "0.18"
napi = "*"
napi-derive = "*"
