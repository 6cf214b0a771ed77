[package]
name = "automark"
version = "0.1.0"
edition = "2021"
publish = false

[dependencies]
automerge = "*"
chrono = "*"
url = "*"
uuid = { version = "*", features = ["v4"] }
dirs = "*"
serde = { version = "*", features = ["derive"] }
serde_json = "*"
toml = "*"
cbor4ii = { version = "*", features = ["serde1"] }
clap = { version = "*", features = ["derive"] }
thiserror = "*"
async-trait = "*"
tokio = { version = "*", features = ["full"] }
tokio-tungstenite = "*"
futures-util = "*"
crossterm = "*"
ratatui = "*"
reqwest = { version = "*", default-features = false }
scraper = "*"
