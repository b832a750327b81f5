[package]
name = "ballistic_kalman"
version = "0.1.0"
edition = "2021"
publish = false

[dependencies]
rand = "0.8"
serde = { version = "1", features = ["derive"] }
rapier2d = "0.22"
