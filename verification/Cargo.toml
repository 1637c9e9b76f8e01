[package]
name = "coinwatch"
version = "0.1.0"
edition = "2021"
publish = false

[dependencies]
anyhow = "*"
chrono = "*"
clap = { version = "*", features = ["derive"] }
color-eyre = "*"
crossterm = "*"
futures = "*"
parking_lot = "*"
ratatui = "*"
serde = { version = "*", features = ["derive"] }
serde_json = "*"
terminal_size = "*"
tokio = { version = "*", features = ["macros", "rt-multi-thread", "sync", "time"] }
tokio-tungstenite = "*"
