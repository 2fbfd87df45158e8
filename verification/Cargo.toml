[package]
name = "cinderbox"
version = "0.1.0"
edition = "2021"
publish = false

[dependencies]
crossterm = "=0.29.0"
ratatui = "=0.30.2"
ratatui-explorer = "=0.3.0"
