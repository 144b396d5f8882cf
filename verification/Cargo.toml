[package]
name = "my_agent"
version = "0.1.0"
edition = "2021"
publish = false

[dependencies]
agent-client-protocol = "=1.3.0"
anyhow = "=1.0.104"
async-trait = "=0.1.92"
axum = { version = "=0.8.9", features = ["ws"] }
chrono = { version = "=0.4.45", default-features = false, features = ["clock", "std"] }
clap = { version = "=4.6.7", features = ["derive"] }
cron = "=0.17.0"
crossterm = "=0.29.0"
futures-util = "=0.3.34"
ratatui = "=0.30.2"
reqwest = { version = "=0.12.28", default-features = false }
serde = { version = "=1.0.229", features = ["derive"] }
serde_json = { version = "=1.0.154", features = ["preserve_order"] }
sha2 = "=0.10.9"
thiserror = "=2.0.21"
tokio = { version = "=1.54.1", features = ["full"] }
tracing = "=0.1.44"
tracing-subscriber = { version = "=0.3.23", features = ["env-filter"] }
unicode-segmentation = "=1.13.3"
unicode-width = "=0.2.3"
