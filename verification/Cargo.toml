[package]
name = "bioc_extract"
version = "0.1.0"
edition = "2021"
publish = false

[dependencies]
cutters = "*"
serde = { version = "*", features = ["derive"] }
serde_json = "*"
clap = { version = "*", features = ["derive"] }
anyhow = "*"
log = "*"
env_logger = "*"
rayon = "*"
