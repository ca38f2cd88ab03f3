[package]
name = "grandmaster_recall"
version = "0.1.0"
edition = "2021"
publish = false

[dependencies]
shakmaty = "0.27"
regex = "1"
serde = { version = "1", features = ["derive"] }
serde_json = "1"
chrono = { version = "0.4", features = ["serde"] }
anyhow = "1"
tokio = { version = "1", features = ["full"] }
axum = "0.7"
tower-http = { version = "0.5", features = ["cors", "fs"] }
tracing = "0.1"
tracing-subscriber = "0.3"
sqlx = { version = "0.7", default-features = false, features = ["runtime-tokio", "sqlite", "chrono"] }
reqwest = { version = "0.11", default-features = false, features = ["json", "rustls-tls"] }
