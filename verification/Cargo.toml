[package]
name = "jira-commands"
version = "1.0.0"
edition = "2021"
publish = false

[dependencies]
chrono = "=0.4.45"
chrono-tz = "=0.10.4"
anyhow = "=1.0.104"
serde = { version = "=1.0.229", features = ["derive"] }
serde_json = "=1.0.154"
clap = { version = "=4.6.7", features = ["derive"] }
reqwest = { version = "=0.12.28", default-features = false, features = ["json", "rustls-tls"] }
tokio = { version = "=1.54.1", features = ["rt-multi-thread", "macros"] }
kurir = "=0.6.1"
ratatui = "0.29"
crossterm = "0.28"
tui-textarea = "0.7"
inquire = "0.7"
indicatif = "0.17"
open = "5"
tracing-subscriber = { version = "0.3", features = ["env-filter"] }
