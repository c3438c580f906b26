[package]
name = "gh-autoswitch"
version = "0.1.0"
edition = "2021"
publish = false

[dependencies]
anyhow = "1"
ratatui = "0.29"
regex = "1"
serde = { version = "1", features = ["derive"] }
serde_yaml = "0.9"
