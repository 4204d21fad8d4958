[package]
name = "track_sweep"
version = "0.1.0"
edition = "2021"
publish = false

[dependencies]
anyhow = "1"
crossterm = "*"
ctrlc = "3"
serde = { version = "1", features = ["derive"] }
serde_json = "1"
