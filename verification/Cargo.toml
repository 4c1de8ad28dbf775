[package]
name = "pager"
version = "0.1.0"
edition = "2021"
publish = false

[dependencies]
regex = "*"
unicode-width = "*"
crossterm = "*"
ratatui = "*"
anyhow = "*"
log = "*"
env_logger = "*"
