[package]
name = "polymarket_rn2_bot"
version = "0.1.0"
edition = "2021"
publish = false

[dependencies]
rust_decimal = "1"
regex = "1"
serde = { version = "1", features = ["derive"] }
serde_json = "1"
anyhow = "1"
chrono = "0.4"
tracing = "0.1"
tokio = { version = "1", features = ["full"] }
futures-util = { version = "0.3", features = ["sink"] }
tokio-tungstenite = "0.21"
dashmap = "5"
reqwest = { version = "0.11", default-features = false, features = ["json", "rustls-tls"] }
google-sheets4 = "5"
