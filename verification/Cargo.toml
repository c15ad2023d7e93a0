[package]
name = "moonshot"
version = "0.1.0"
edition = "2021"
publish = false

[dependencies]
syn = { version = "2", features = ["full"] }
serde = { version = "1", features = ["derive"] }
ron = "0.8"
nalgebra = "0.33"
