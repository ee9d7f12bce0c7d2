[package]
name = "xcpu"
version = "0.1.0"
edition = "2021"

[dependencies]
cursive = "*"
