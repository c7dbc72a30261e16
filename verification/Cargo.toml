[package]
name = "planet_sim"
version = "0.1.0"
edition = "2021"
publish = false

[dependencies]
fnv = "=1.0.7"
serde = { version = "=1.0.229", features = ["derive"] }
