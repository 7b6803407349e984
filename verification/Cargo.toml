[package]
name = "tui-musicplayer"
version = "0.1.0"
edition = "2021"
publish = false

[dependencies]
anyhow = "1"
clap = { version = "4", features = ["derive"] }
cpal = "0.15"
crossterm = "0.28"
dirs = "5"
log = "0.4"
ratatui = "0.29"
rodio = "0.20"
roxmltree = "0.20"
serde = { version = "1", features = ["derive"] }
serde_json = "1"
simplelog = "0.12"
walkdir = "2"
