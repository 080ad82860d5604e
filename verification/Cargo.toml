[package]
name = "disaster_alert"
version = "0.1.0"
edition = "2021"
publish = false

[dependencies]
anyhow = "1"
axum = { version = "0.8", default-features = false, features = ["http1", "json", "query", "tokio"] }
reqwest = { version = "0.12", default-features = false, features = ["json", "rustls-tls"] }
serde = { version = "1", features = ["derive"] }
serde_json = { version = "1", features = ["float_roundtrip"] }
tokio = { version = "1", features = ["macros", "net", "rt", "sync", "time"] }
tower-http = { version = "0.6", default-features = false, features = ["trace"] }
tracing = "0.1"
url = "2"
zeroize = "1"
