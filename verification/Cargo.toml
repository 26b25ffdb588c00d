[package]
name = "selector4nix"
version = "0.1.0"
edition = "2021"
publish = false

[dependencies]
tokio = { version = "=1.54.1", features = ["full"] }
axum = "=0.8.9"
reqwest = { version = "=0.12.28", default-features = false, features = ["rustls-tls", "stream"] }
moka = { version = "=0.12.16", features = ["future", "sync"] }
bytes = "=1.12.1"
futures = "=0.3.34"
serde = { version = "=1.0.229", features = ["derive"] }
toml = "=0.8.23"
tracing = "=0.1.44"
tracing-subscriber = "=0.3.23"
anyhow = "=1.0.104"
async-trait = "=0.1.92"
http = "=1.5.0"
