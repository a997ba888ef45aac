[package]
name = "mdman"
version = "0.1.0"
edition = "2021"
publish = false

[dependencies]
jiff = "*"
markdown = "*"
serde = { version = "*", features = ["derive"] }
serde_yaml = "*"
clap = { version = "*", features = ["derive"] }
