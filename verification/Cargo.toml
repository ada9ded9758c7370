[package]
name = "kumo"
version = "0.1.0"
edition = "2021"
publish = false

[dependencies]
serde_json = "1"
serde = { version = "1", features = ["derive"] }
once_cell = "1"
color-eyre = "0.6"
tracing = "0.1"
