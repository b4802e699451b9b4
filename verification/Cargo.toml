[package]
name = "liberado-caldav-mcp"
version = "0.1.0"
edition = "2021"
publish = false

[dependencies]
quick-xml = "=0.37.5"
chrono = { version = "=0.4.45", default-features = false, features = ["clock", "std"] }
uuid = { version = "=1.29.0", features = ["v4"] }
reqwest = { version = "=0.12.28", default-features = false }
tokio = { version = "=1.54.1", features = ["macros", "rt-multi-thread", "net"] }
axum = "=0.8.9"
serde = { version = "=1.0.229", features = ["derive"] }
serde_json = "=1.0.154"
thiserror = "=2.0.21"
tracing = "=0.1.44"
tracing-subscriber = "=0.3.23"
turbomcp = { version = "=3.6.0", features = ["http"] }
