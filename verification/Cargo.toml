[package]
name = "chat_tui"
version = "0.1.0"
edition = "2021"
publish = false

[dependencies]
anyhow = "*"
crossterm = "*"
dotenvy = "*"
eventsource-stream = "*"
futures = "*"
ratatui = "*"
ratatui-textarea = "*"
reqwest = { version = "0.12", default-features = false, features = ["json", "stream", "rustls-tls"] }
serde = { version = "*", features = ["derive"] }
serde_json = "*"
sqlx = { version = "*", default-features = false, features = ["sqlite", "runtime-tokio"] }
tokio = { version = "*", features = ["full"] }
tracing-appender = "*"
tracing-subscriber = "*"
unicode-width = "*"
uuid = { version = "*", features = ["v4"] }
