[package]
name = "mutagui"
version = "0.1.0"
edition = "2021"
publish = false

[dependencies]
anyhow = "*"
async-trait = "*"
chrono = "*"
clap = { version = "*", features = ["derive"] }
crossterm = "*"
dirs = "*"
glob = "*"
ratatui = "*"
serde = { version = "*", features = ["derive"] }
serde_json = "*"
serde_yaml = "*"
shell-escape = "*"
terminal-light = "*"
textwrap = "*"
tokio = { version = "*", features = ["macros", "process", "rt-multi-thread", "time"] }
toml = "*"
