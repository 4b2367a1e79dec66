[package]
name = "hilang"
version = "0.1.0"
edition = "2021"
publish = false

[dependencies]
kohaku = "*"
suzuran = "*"
