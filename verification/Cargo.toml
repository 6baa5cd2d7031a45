[package]
name = "httpcore"
version = "0.1.0"
edition = "2021"
publish = false

[dependencies]
httparse = "1"
language-tags = "0.3"
mime = "0.3"
url = "2"
