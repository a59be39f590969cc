[package]
name = "lstr"
version = "0.1.0"
edition = "2021"
publish = false

[dependencies]
anyhow = "1"
clap = { version = "4", features = ["derive"] }
colored = "2"
crossterm = "0.27"
ignore = "0.4"
ratatui = "0.26"
