[package]
name = "komorebi-core"
version = "0.1.0"
edition = "2021"
publish = false

[dependencies]
clap = { version = "3", features = ["derive"] }
color-eyre = "0.6"
schemars = "0.8"
serde = { version = "1", features = ["derive"] }
serde_yaml = "0.8"
strum = { version = "0.24", features = ["derive"] }
