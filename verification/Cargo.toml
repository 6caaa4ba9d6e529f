[package]
name = "black_scholes"
version = "0.1.0"
edition = "2021"
publish = false

[dependencies]
statrs = { version = "=0.19.1", default-features = false, features = ["std"] }
