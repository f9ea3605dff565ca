[package]
name = "tcpconnpool"
version = "0.1.0"
edition = "2021"
publish = false

[dependencies]
rand = "*"
deadpool = "*"
async-std = { version = "*", features = ["attributes"] }
