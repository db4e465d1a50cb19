[package]
name = "request_cache"
version = "0.1.0"
edition = "2021"

[dependencies]
async-sqlite = "*"
reqwest = "*"
