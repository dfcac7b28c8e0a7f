[package]
name = "greetme"
version = "1.0.0"
edition = "2021"
publish = false

[dependencies]
anyhow = "1"
chrono = { version = "0.4", features = ["serde"] }
clap = { version = "4", features = ["derive"] }
colored = "2"
crossterm = "0.27"
dirs = "5"
figlet-rs = "0.1"
rand = "0.8"
serde = { version = "1", features = ["derive"] }
toml = "0.8"
