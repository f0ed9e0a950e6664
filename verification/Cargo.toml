[package]
name = "stock-alert"
version = "0.1.0"
edition = "2021"
publish = false

[dependencies]
anyhow = "=1.0.104"
async-trait = "=0.1.92"
chrono = "=0.4.45"
chrono-tz = "=0.10.4"
eventsource-client = "=0.17.5"
futures = "=0.3.34"
launchdarkly-sdk-transport = { version = "=0.1.4", features = ["hyper-rustls-webpki-roots"] }
log = "=0.4.35"
rodio = "=0.20.1"
serde = { version = "=1.0.229", features = ["derive"] }
serde_json = "=1.0.154"
sqlx = { version = "=0.8.6", default-features = false, features = ["runtime-tokio", "sqlite"] }
tokio = { version = "=1.54.1", features = ["full"] }
toml = "=0.8.23"
winapi = { version = "=0.3.9", features = ["utilapiset"] }
