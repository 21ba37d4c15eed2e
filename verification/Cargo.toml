[package]
name = "syswatch"
version = "0.3.1"
edition = "2021"
publish = false

[dependencies]
serde_json = "1"
serde = { version = "1", features = ["derive"] }
toml = "*"
anyhow = "1"
chrono = "0.4"
clap = { version = "4", features = ["derive"] }
crossterm = "*"
ratatui = "*"
dirs = "*"
netwatch-sdk = "*"
macpow = "*"
