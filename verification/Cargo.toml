[package]
name = "openapi_tui"
version = "0.1.0"
edition = "2021"
publish = false

[dependencies]
clap = { version = "*", features = ["derive"] }
crossterm = "*"
ratatui = "*"
reqwest = { version = "*", default-features = false }
serde_json = "*"
serde_yaml = "*"
tokio = { version = "*", features = ["rt-multi-thread", "macros", "sync", "fs", "time"] }
