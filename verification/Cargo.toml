[package]
name = "ss-uri"
version = "0.1.0"
edition = "2021"
publish = false

[dependencies]
base64 = "0.13"
percent-encoding = "2"
url = "2"
