[package]
name = "chunks"
version = "0.1.0"
edition = "2021"
publish = false

[dependencies]
anyhow = "1"
brickadia = "*"
lazy_static = "1"
omegga = "*"
serde = { version = "1", features = ["derive"] }
serde_json = "1"
tokio = { version = "1", features = ["full"] }
