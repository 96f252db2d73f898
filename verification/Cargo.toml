[package]
name = "rmcl"
version = "0.1.0"
edition = "2021"
publish = false

[dependencies]
chrono = "*"
crossterm = "*"
ratatui = "*"
tokio = { version = "*", features = ["rt-multi-thread", "sync", "time", "fs"] }
serde_json = "*"
open = "*"
notify = "*"
tracing = "*"
color-eyre = "*"
