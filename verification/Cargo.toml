[package]
name = "vtparse"
version = "0.1.0"
edition = "2021"
publish = false

[dependencies]
utf8parse = "0.2"
