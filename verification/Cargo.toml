[package]
name = "chttp"
version = "0.1.0"
edition = "2021"
publish = false

[dependencies]
curl = "*"
http = "*"
futures = "*"
lazy_static = "*"
