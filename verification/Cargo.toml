[package]
name = "web_crawler"
version = "0.1.0"
edition = "2021"
publish = false

[dependencies]
chrono = "=0.4.45"
scraper = { version = "=0.19.1", features = ["deterministic"] }
percent-encoding = "=2.3.2"
serde = { version = "=1.0.229", features = ["derive"] }
serde_json = "=1.0.154"
base64 = "=0.21.7"
random-number = "=0.1.10"
anyhow = "=1.0.104"
tracing = "=0.1.44"
tracing-subscriber = "=0.3.23"
tokio = { version = "=1.54.1", features = ["full"] }
reqwest = { version = "=0.11.27", default-features = false, features = ["json", "rustls-tls"] }
axum = "=0.6.20"
hyper = { version = "=0.14.32", features = ["server", "tcp", "http1"] }
thirtyfour = "=0.31.0"
