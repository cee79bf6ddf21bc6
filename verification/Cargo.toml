[package]
name = "inferenco_mcp"
version = "0.1.0"
edition = "2021"
publish = false

[dependencies]
axum = "0.7"
chrono = "0.4"
rand = "0.8"
reqwest = { version = "0.12", default-features = false }
scraper = "*"
serde = { version = "1", features = ["derive"] }
serde_json = "1"
tokio = { version = "1", features = ["macros", "rt-multi-thread", "net", "io-util", "io-std", "time", "sync"] }
tokio-stream = "0.1"
