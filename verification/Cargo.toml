[package]
name = "base64_url"
version = "1.4.13"
edition = "2021"
publish = false

[dependencies]
base64 = "*"
