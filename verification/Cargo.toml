[package]
name = "quikdecision"
version = "0.6.0"
edition = "2021"
publish = false

[dependencies]
rand = "0.8"
numerals = "*"
