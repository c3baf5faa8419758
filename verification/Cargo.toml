[package]
name = "training_mod_tui_2"
version = "0.1.0"
edition = "2021"
publish = false

[dependencies]
crossterm = "*"
itertools = "*"
ratatui = "*"
serde = { version = "1", features = ["derive"] }
serde_json = "1"
