[package]
name = "disarm64"
version = "0.1.0"
edition = "2021"
publish = false

[dependencies]
disarm64_defn = "*"
