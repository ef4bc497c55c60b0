[package]
name = "turbotui"
version = "0.1.0"
edition = "2021"
publish = false

[dependencies]
anyhow = "1"
chrono = "0.4"
crossterm = "0.28"
csv = "1"
ratatui = "0.29"
serde = { version = "1", features = ["derive"] }
serde_json = "1"
sqlformat = "0.2"
tiberius = "0.12"
tokio = { version = "1", features = ["full"] }
tokio-util = { version = "0.7", features = ["compat"] }
toml = "0.8"
