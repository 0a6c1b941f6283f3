[package]
name = "lazyadb"
version = "0.1.0"
edition = "2021"
publish = false

[dependencies]
ratatui = "0.29"
crossterm = "0.28"
tokio = { version = "1", features = ["rt-multi-thread", "sync", "macros", "time"] }
color-eyre = "0.6"
