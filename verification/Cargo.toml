[package]
name = "icosahedron"
version = "0.1.0"
edition = "2021"
publish = false

[dependencies]
ggez = { version = "=0.10.0", default-features = false }
mint = "=0.5.9"
