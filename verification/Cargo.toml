[package]
name = "grammers"
version = "0.1.0"
edition = "2021"
publish = false

[dependencies]
locate-locale = "*"
os_info = { version = "*", default-features = false }
