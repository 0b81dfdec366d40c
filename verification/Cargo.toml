[package]
name = "text2digits"
version = "0.1.0"
edition = "2021"
publish = false

[dev-dependencies]
text2num = "*"
