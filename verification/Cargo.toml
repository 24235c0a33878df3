[package]
name = "sm_connect"
version = "0.1.0"
edition = "2021"
publish = false

[dependencies]
anyhow = "1"
aws-config = { version = "1", default-features = false }
crossterm = "0.28"
home = "0.5"
ratatui = "0.29"
serde = { version = "1", features = ["derive"] }
serde_json = "1"
signal-hook = "0.3"
thiserror = "1"
tokio = { version = "1", features = ["macros", "rt-multi-thread", "process"] }
