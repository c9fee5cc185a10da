[package]
name = "coverage"
version = "0.1.0"
edition = "2021"
publish = false

[dependencies]
oxc = { version = "=0.139.0", features = ["full"] }
rayon = "=1.10.0"
