[package]
name = "graze"
version = "0.1.0"
edition = "2021"
publish = false

[dependencies]
anyhow = "=1.0.104"
clap = { version = "=4.6.7", features = ["derive"] }
crossterm = "=0.28.1"
duckdb = { version = "=1.20000.1", features = ["appender-arrow"] }
ratatui = "=0.29.0"
regex = "=1.13.1"
tempfile = "=3.27.0"
terminal-colorsaurus = "=0.4.8"
unicode-width = "=0.2.0"
