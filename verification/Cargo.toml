[package]
name = "terminal-games"
version = "1.2.0"
edition = "2021"
publish = false

[dependencies]
anyhow = "1"
crossterm = "0.28"
dirs = "6"
ratatui = "0.29"
rusqlite = { version = "0.32", features = ["bundled"] }
thiserror = "2"
