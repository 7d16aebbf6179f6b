[package]
name = "screen_search"
version = "0.1.0"
edition = "2021"
publish = false

[dependencies]
image = "*"
napi = { version = "*", features = ["async"] }
napi-derive = "*"
core-graphics = "*"
foreign-types = "*"
