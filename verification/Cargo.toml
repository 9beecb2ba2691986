[package]
name = "hexagon"
version = "0.1.0"
edition = "2021"
publish = false

[dependencies]
teensycore = { version = "=0.1.0", features = ["testing"] }
