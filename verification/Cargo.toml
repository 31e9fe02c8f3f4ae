[package]
name = "agent-kanban"
version = "0.2.0"
edition = "2021"
publish = false
rust-version = "1.88"

[dependencies]
anyhow = "1"
crossterm = "0.28"
ratatui = "0.29"
serde = { version = "1", features = ["derive"] }
serde_json = "1"
uuid = { version = "1", features = ["v4"] }
