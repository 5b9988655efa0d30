[package]
name = "rex_chart"
version = "0.1.0"
edition = "2021"
publish = false

[dependencies]
ratatui = "0.26"
crossterm = "0.27"
rusqlite = { version = "0.31", features = ["bundled"] }
