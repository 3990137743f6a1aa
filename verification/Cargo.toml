[package]
name = "condemus"
version = "0.1.0"
edition = "2021"
publish = false

[dependencies]
eframe = { version = "0.22", default-features = false, features = ["glow"] }
env_logger = { version = "0.10", default-features = false }
serde = { version = "1", features = ["derive"] }
