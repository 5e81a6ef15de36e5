[package]
name = "traffic"
version = "0.1.0"
edition = "2021"
publish = false

[dependencies]
rand = "=0.4.6"
sfml = "=0.11.2"
