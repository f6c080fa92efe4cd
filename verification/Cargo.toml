[package]
name = "torus_flock"
version = "0.1.0"
edition = "2021"
publish = false

[dependencies]
rand = "*"
