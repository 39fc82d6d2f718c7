[package]
name = "postcrate-core"
version = "0.1.0"
edition = "2021"
publish = false

[dependencies]
regex = "=1.13.1"
base64 = "=0.22.1"
serde = { version = "=1.0.229", features = ["derive"] }
serde_json = "=1.0.154"
mail-parser = "=0.11.9"
chrono = { version = "=0.4.45", default-features = false, features = ["clock", "std"] }
uuid = { version = "=1.29.0", features = ["v4"] }
dashmap = "=6.2.1"
parking_lot = "=0.12.5"
http = "=1.5.0"
axum = { version = "=0.8.9", default-features = false, features = ["http1", "json", "query", "tokio", "matched-path"] }
tower-http = { version = "=0.6.11", features = ["cors", "limit", "timeout", "trace"] }
tokio = { version = "=1.54.1", features = ["rt-multi-thread", "macros", "net", "fs", "sync", "time", "signal", "io-util"] }
tokio-util = "=0.7.20"
tokio-stream = { version = "=0.1.19", features = ["sync"] }
futures-util = "=0.3.34"
sqlx = { version = "=0.8.6", default-features = false, features = ["runtime-tokio", "sqlite", "migrate"] }
reqwest = { version = "=0.12.28", default-features = false, features = ["json"] }
thiserror = "=2.0.21"
tracing = "=0.1.44"
tracing-subscriber = { version = "=0.3.23", features = ["env-filter"] }
clap = { version = "=4.6.7", features = ["derive"] }
anyhow = "=1.0.104"
