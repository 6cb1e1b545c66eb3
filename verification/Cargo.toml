[package]
name = "rust_iss"
version = "0.1.0"
edition = "2021"
publish = false

[dependencies]
axum = "0.7"
base64 = "0.21"
chrono = { version = "0.4", features = ["serde"] }
dotenv = "0.15"
governor = "0.6"
lazy_static = "1.4"
prometheus = { version = "0.13", default-features = false }
redis = { version = "0.24", features = ["tokio-comp"] }
reqwest = { version = "0.11", default-features = false, features = ["json", "rustls-tls"] }
serde = { version = "1", features = ["derive"] }
serde_json = "1"
sqlx = { version = "0.7", default-features = false, features = ["runtime-tokio", "postgres", "chrono"] }
tokio = { version = "1", features = ["full"] }
tower-http = { version = "0.5", features = ["cors", "trace"] }
tracing = "0.1"
tracing-subscriber = { version = "0.3", features = ["env-filter"] }
uuid = { version = "1", features = ["v4"] }
validator = { version = "0.16", features = ["derive"] }
