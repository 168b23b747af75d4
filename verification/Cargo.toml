[package]
name = "coffdump"
version = "0.1.0"
edition = "2021"
publish = false

[dev-dependencies]
bincode = "=2.0.1"
