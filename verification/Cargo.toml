[package]
name = "fenris"
version = "0.1.0"
edition = "2021"
publish = false

[dependencies]
eyre = "0.6"
nalgebra = "0.31"
rstar = "0.9"
davenport = "0.1"
numeric_literals = "0.2"
serde = { version = "1", features = ["derive"] }
