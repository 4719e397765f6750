[package]
name = "renderer"
version = "0.1.0"
edition = "2021"
publish = false

[dependencies]
rand = { version = "0.7", features = ["small_rng"] }
wee_alloc = "0.4"
