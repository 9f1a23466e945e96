[package]
name = "day_trader"
version = "0.1.0"
edition = "2021"
publish = false

[dependencies]
rand = "*"
