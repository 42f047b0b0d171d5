[package]
name = "oc"
version = "0.1.0"
edition = "2021"
publish = false

[dependencies]
anyhow = "1"
clap = { version = "4", features = ["derive"] }
clap_complete = "4"
crossterm = "0.28"
palette = "0.7"
ratatui = "0.29"
rusqlite = { version = "*", features = ["bundled"] }
serde_json = "1"
terminal-colorsaurus = "*"
unicode-width = "*"
