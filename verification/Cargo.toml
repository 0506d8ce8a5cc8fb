[package]
name = "retail_scraper"
version = "0.1.0"
edition = "2021"
publish = false

[dependencies]
anyhow = "1"
base64 = "0.13"
clap = { version = "3.2", features = ["derive"] }
flate2 = "1"
futures-util = "0.3"
http = "0.2"
hyper = { version = "0.14", features = ["full"] }
rand = "0.8"
regex = "1"
reqwest = "0.11"
rusqlite = { version = "0.28", features = ["array", "bundled"] }
serde = { version = "1", features = ["derive"] }
serde_json = "1"
sha2 = "0.10"
tokio = { version = "1", features = ["full"] }
