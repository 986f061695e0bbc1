[package]
name = "key_connector"
version = "0.1.0"
edition = "2021"
publish = false

[dependencies]
aes-gcm = "=0.11.1"
base64 = "=0.22.1"
jsonwebtoken = "=9.3.1"
axum = "=0.8.9"
tokio = { version = "=1.54.1", features = ["macros", "rt-multi-thread", "net", "signal", "time"] }
tower-http = { version = "=0.6.11", features = ["cors", "trace"] }
sqlx = { version = "=0.8.6", default-features = false, features = ["runtime-tokio", "sqlite"] }
reqwest = { version = "=0.12.28", default-features = false, features = ["json", "rustls-tls"] }
serde = { version = "=1.0.229", features = ["derive"] }
serde_json = "=1.0.154"
tracing = "=0.1.44"
tracing-subscriber = { version = "=0.3.23", features = ["env-filter"] }
