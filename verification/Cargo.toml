[package]
name = "codex_remote"
version = "0.1.0"
edition = "2021"
publish = false

[dependencies]
serde_json = "1"
serde = { version = "1", features = ["derive"] }
chrono = { version = "0.4", features = ["serde"] }
uuid = { version = "1", features = ["v4"] }
anyhow = "1"
bytes = "1"
eventsource-stream = "*"
futures = "0.3"
http = "1"
reqwest = { version = "0.12", default-features = false, features = ["blocking", "rustls-tls"] }
sqlx = { version = "*", default-features = false, features = ["runtime-tokio", "postgres", "migrate", "chrono", "json"] }
tokio = { version = "1", features = ["rt-multi-thread", "macros", "sync", "time"] }
tracing = "0.1"
