[package]
name = "serde_kdl"
version = "0.1.0"
edition = "2021"
publish = false

[dependencies]
kdl = "6.5"
serde = "1"
