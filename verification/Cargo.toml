[package]
name = "cosmon_rpp_adapter"
version = "0.2.1"
edition = "2021"
publish = false

[dependencies]
anyhow = "=1.0.104"
arc-swap = "=1.9.3"
axum = { version = "=0.8.9", features = ["macros"] }
base64 = "=0.22.1"
blake3 = { version = "=1.8.7", features = ["pure"] }
chrono = { version = "=0.4.45", default-features = false, features = ["clock", "std", "serde"] }
clap = { version = "=4.6.7", features = ["derive", "env"] }
nix = { version = "=0.29.0", default-features = false, features = ["signal", "process", "user"] }
reqwest = { version = "=0.12.28", default-features = false, features = ["json"] }
serde = { version = "=1.0.229", features = ["derive"] }
serde_json = "=1.0.154"
sha2 = "=0.10.9"
subtle = "=2.6.1"
thiserror = "=1.0.69"
tokio = { version = "=1.54.1", features = ["full"] }
tokio-stream = { version = "=0.1.19", features = ["sync"] }
toml = "=0.8.23"
tower-http = { version = "=0.6.11", features = ["cors", "trace", "limit"] }
tracing = "=0.1.44"
tracing-subscriber = { version = "=0.3.23", features = ["env-filter", "json"] }
