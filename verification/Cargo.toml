[package]
name = "maki_ui"
version = "0.1.0"
edition = "2021"
publish = false

[dependencies]
dirs = "*"
flume = { version = "*", default-features = false }
notify = "*"
ratatui = "*"
