[package]
name = "rs_script"
version = "0.1.0"
edition = "2021"
publish = false

[dependencies]
regex = "=1.13.1"
ratatui = "=0.30.2"
crossterm = "=0.27.0"
tui-textarea = { version = "=0.4.0", features = ["crossterm", "search"] }
clap = { version = "=4.6.7", features = ["derive"] }
cargo_toml = "=1.0.1"
toml = "=1.1.8"
env_logger = "=0.11.11"
log = "=0.4.35"
nu-ansi-term = "=0.50.3"
