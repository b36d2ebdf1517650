[package]
name = "jt-budget"
version = "0.1.0"
edition = "2021"
publish = false

[dependencies]
anyhow = "1"
clap = { version = "4", features = ["derive"] }
crossterm = "0.28"
dirs = "6"
fs4 = "*"
ratatui = "0.29"
serde = { version = "1", features = ["derive"] }
tempfile = "3"
thiserror = "2"
time = { version = "0.3", features = ["formatting"] }
toml = "0.8"
tracing = "0.1"
tracing-subscriber = "0.3"
