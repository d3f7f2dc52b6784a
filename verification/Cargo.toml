[package]
name = "tiny_gradient"
version = "0.1.0"
edition = "2021"
publish = false

[dependencies]
libm = "*"
