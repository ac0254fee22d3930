[package]
name = "radish"
version = "0.1.0"
edition = "2021"
publish = false

[dependencies]
rand = "0.8"
tinyvec = { version = "1", features = ["alloc"] }
serde = { version = "1", features = ["derive"] }
toml = "0.7"
