[package]
name = "timer"
version = "0.1.0"
edition = "2021"
publish = false

[dependencies]
chrono = "0.4"
clap = { version = "4", features = ["derive"] }
crossterm = "0.27"
humantime = "2"
notify-rust = "4"
ratatui = "0.26"
