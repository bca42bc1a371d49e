[package]
name = "pool_stats"
version = "0.1.0"
edition = "2021"
publish = false

[dependencies]
serde_json = "1"
rand = "0.8"
reqwest = { version = "0.11", default-features = false, features = ["blocking"] }
ratatui = "0.26"
crossterm = "0.27"
