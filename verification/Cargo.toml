[package]
name = "r105_ui"
version = "0.1.0"
edition = "2021"
publish = false

[dependencies]
anyhow = "=1.0.104"
crossterm = { version = "=0.28.1", features = ["event-stream"] }
futures-util = "=0.3.34"
ratatui = "=0.29.0"
regex = "=1.13.1"
serde = { version = "=1.0.229", features = ["derive"] }
serde_json = "=1.0.154"
tokio = { version = "=1.54.1", features = ["macros", "process", "rt", "sync", "time"] }
tokio-util = "=0.7.20"
walkdir = "=2.5.0"
