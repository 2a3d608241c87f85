[package]
name = "http_util"
version = "0.1.0"
edition = "2021"
publish = false

[dependencies]
base64 = "0.21"
http = "0.2"
md-5 = "0.10"
time = { version = "0.3", features = ["parsing"] }
