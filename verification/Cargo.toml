[package]
name = "starproxy"
version = "0.1.0"
edition = "2021"
publish = false

[dependencies]
sqlparser = { version = "=0.63.0", features = ["serde", "visitor"] }
serde = { version = "=1.0.229", features = ["derive"] }
serde_json = "=1.0.151"
axum = "=0.8.9"
reqwest = { version = "=0.12.28", default-features = false, features = ["rustls-tls", "json", "stream"] }
tokio = { version = "=1.53.2", features = ["rt-multi-thread", "macros", "net", "time"] }
tower = "=0.5.3"
tower-http = { version = "=0.6.11", features = ["trace", "timeout", "sensitive-headers", "util"] }
tracing = "=0.1.44"
tracing-subscriber = { version = "=0.3.23", features = ["env-filter"] }
once_cell = "=1.21.4"
