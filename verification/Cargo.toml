[package]
name = "zeteo"
version = "0.1.0"
edition = "2021"
publish = false

[dependencies]
serde_json = "1"
chrono = "0.4"
serde = { version = "1", features = ["derive"] }
anyhow = "1"
tokio = { version = "1", features = ["rt-multi-thread", "macros", "time", "sync"] }
reqwest = { version = "0.12", default-features = false, features = ["json", "rustls-tls"] }
redis = { version = "0.27", features = ["tokio-comp", "connection-manager"] }
uuid = { version = "1", features = ["v4"] }
crossterm = "0.28"
ratatui = "0.28"
arboard = "3"
clap = { version = "4", features = ["derive"] }
clap_complete = "4"
dirs = "5"
dotenv = "0.15"
async-trait = "0.1"
