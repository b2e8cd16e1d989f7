[package]
name = "memo"
version = "1.0.0"
edition = "2021"
publish = false

[dependencies]
dirs-next = "*"
