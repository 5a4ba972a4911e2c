[package]
name = "expression_format_impl"
version = "0.1.0"
edition = "2021"
publish = false

[dependencies]
regex = "1"
