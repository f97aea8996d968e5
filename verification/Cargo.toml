[package]
name = "bytecrawl"
version = "0.1.0"
edition = "2021"
publish = false

[dependencies]
better_term = "*"
rand = "0.8"
