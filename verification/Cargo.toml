[package]
name = "test_pattern_generator"
version = "0.1.0"
edition = "2021"
publish = false

[dependencies]
bmp = "*"
