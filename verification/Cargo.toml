[package]
name = "relview"
version = "0.1.0"
edition = "2021"
publish = false

[dependencies]
anyhow = "*"
coredump = "*"
crossterm = "*"
ratatui = "*"
serde = { version = "*", features = ["derive"] }
serde_json = "*"
