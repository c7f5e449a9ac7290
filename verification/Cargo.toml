[package]
name = "arrow_parser"
version = "0.1.0"
edition = "2021"
publish = false

[dependencies]
source-map = "*"
