[package]
name = "pytexp"
version = "0.1.0"
edition = "2021"
publish = false

[dependencies]
ansi-to-tui = "=2.0.2"
anyhow = "=1.0.104"
clap = { version = "=4.6.7", features = ["derive"] }
crossterm = "=0.25.0"
regex = "=1.13.1"
rustpython-parser = "0.4"
tui = "=0.19.0"
unicode-width = "=0.1.14"
walkdir = "=2.5.0"
