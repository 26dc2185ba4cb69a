[package]
name = "threedots"
version = "0.1.0"
edition = "2021"
publish = false

[dependencies]
ammonia = "=4.2.1"
argh = "=0.1.19"
axum = "=0.8.9"
axum-server = { version = "=0.8.0", features = ["tls-rustls"] }
chrono = "=0.4.45"
eyre = "=0.6.14"
serde = { version = "=1.0.229", features = ["derive"] }
sqlx = { version = "=0.9.0", default-features = false, features = ["runtime-tokio", "sqlite", "chrono", "macros"] }
tokio = { version = "=1.53.2", features = ["macros", "rt-multi-thread"] }
tower-http = { version = "=0.7.1", features = ["trace"] }
tracing = "=0.1.44"
tracing-journald = "=0.3.2"
tracing-subscriber = "=0.3.23"
uuid = { version = "=1.27.0", features = ["v4"] }
