[package]
name = "workorder"
version = "0.1.0"
edition = "2021"
publish = false

[dependencies]
anyhow = "=1.0.104"
axum = "=0.8.9"
chrono = "=0.4.45"
hex = "=0.4.3"
hmac = "=0.13.0"
rand = "=0.8.8"
reqwest = { version = "=0.12.28", default-features = false, features = ["json"] }
serde = { version = "=1.0.229", features = ["derive"] }
serde_json = "=1.0.151"
sha2 = "=0.11.0"
takecell = "=0.1.1"
teloxide = { version = "=0.17.0", default-features = false, features = ["macros"] }
tokio = { version = "=1.53.2", features = ["rt-multi-thread", "macros", "sync", "time", "signal", "net"] }
tokio-cron-scheduler = "=0.15.1"
tracing = "=0.1.44"
tracing-subscriber = { version = "=0.3.23", features = ["env-filter", "fmt"] }
uuid = { version = "=1.27.0", features = ["v4"] }
