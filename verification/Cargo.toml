[package]
name = "embedded_graphics_simulator"
version = "0.1.0"
edition = "2021"
publish = false

[dependencies]
base64 = "*"
image = "*"
embedded-graphics = "*"
