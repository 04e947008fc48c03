[package]
name = "shakey"
version = "0.1.0"
edition = "2021"
publish = false

[dependencies]
regex = "*"
fastrand = "*"
tokio = { version = "*", features = ["full"] }
serde = { version = "*", features = ["derive"] }
serde_yaml = "*"
anyhow = "*"
