[package]
name = "lmul"
version = "0.1.0"
edition = "2021"
publish = false

[dependencies]
metal = "*"
objc = "*"
once_cell = "*"
