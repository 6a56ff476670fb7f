[package]
name = "corepython"
version = "0.1.0"
edition = "2021"
publish = false

[dependencies]
leb128 = "*"
scroll = "*"
