[package]
name = "n_linear_algebra"
version = "0.1.0"
edition = "2021"
publish = false

[dependencies]
rug = "1"
