[package]
name = "yagami"
version = "0.1.0"
edition = "2021"
publish = false

[dependencies]
url = "2"
quick-xml = "0.37"
scraper = "*"
reqwest = { version = "0.12", default-features = false, features = ["rustls-tls"] }
tokio = { version = "1", features = ["rt-multi-thread", "macros", "sync", "time"] }
clap = { version = "4", features = ["derive"] }
serde = { version = "1", features = ["derive"] }
csv = "1"
dashmap = "*"
ratatui = "*"
crossterm = "*"
anyhow = "1"
thiserror = "1"
