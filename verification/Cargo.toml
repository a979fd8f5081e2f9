[package]
name = "chwp"
version = "0.1.0"
edition = "2021"
publish = false

[dependencies]
serde_json = "*"
urlencoding = "*"
rand = "*"
image = "*"
dirs = "*"
winit = "*"
ureq = "*"
rustls = "*"
rustls-native-certs = "*"
mimalloc = "*"
