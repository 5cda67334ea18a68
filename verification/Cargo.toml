[package]
name = "captive_portal"
version = "0.1.0"
edition = "2021"
publish = false

[dependencies]
memchr = "2"
httparse = "1"
url = "2"
macaddr = "1"
