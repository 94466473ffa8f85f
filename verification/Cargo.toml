[package]
name = "azul"
version = "0.1.0"
edition = "2021"
publish = false

[dependencies]
rand = { version = "=0.8.8", features = ["small_rng"] }
serde = { version = "=1.0.229", features = ["derive"] }
serde_json = "=1.0.154"
ndarray = { version = "*", features = ["serde"] }
bincode = "1"
