[package]
name = "persepolis"
version = "0.1.0"
edition = "2021"
publish = false

[dependencies]
data-encoding = "*"
rand = "0.8"
ring = "*"
