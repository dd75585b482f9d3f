[package]
name = "proxy_pool"
version = "0.1.0"
edition = "2021"
publish = false

[dependencies]
http = "1"
prost = "0.13"
rand = "0.8"
reqwest = { version = "0.12", default-features = false }
