[package]
name = "er_overlay"
version = "0.1.0"
edition = "2021"
publish = false

[dependencies]
serde = { version = "=1.0.229", features = ["derive"] }
toml = "=1.1.8"
anyhow = "=1.0.104"
tracing = "=0.1.44"
semver = "1"
serde_json = "1"
clap = { version = "4", features = ["derive"] }
tracing-subscriber = { version = "0.3", features = ["env-filter"] }
tracing-appender = "0.2"
ureq = "3"
zip = "9"
self-replace = "1"
