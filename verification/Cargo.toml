[package]
name = "dropgrid"
version = "0.1.0"
edition = "2021"
publish = false

[dependencies]
anyhow = "1"
crossterm = { version = "0.27", features = ["event-stream", "serde"] }
futures = "0.3"
ratatui = "0.26"
serde = { version = "1", features = ["derive"] }
tinyvec = "1"
tokio = { version = "1", features = ["full"] }
