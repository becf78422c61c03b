[package]
name = "dazzle"
version = "0.1.0"
edition = "2021"
publish = false

[dependencies]
axum = "0.8"
backoff = "0.4"
dashmap = "6"
dotenvy = "0.15"
futures = "0.3"
futures-util = "0.3"
scopeguard = "1"
serde = { version = "1", features = ["derive"] }
serde_json = "1"
tokio = { version = "1", features = ["full"] }
tokio-stream = { version = "0.1", features = ["sync"] }
tokio-tungstenite = { version = "*", features = ["rustls-tls-webpki-roots"] }
tower-http = { version = "0.6", features = ["trace"] }
tracing = "0.1"
tracing-subscriber = { version = "0.3", features = ["env-filter"] }
uuid = { version = "1", features = ["v4"] }
