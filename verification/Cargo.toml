[package]
name = "cstrptr"
version = "0.1.2"
edition = "2021"
publish = false

[dependencies]
cty = "0.2"
