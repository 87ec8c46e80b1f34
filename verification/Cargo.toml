[package]
name = "kestrel"
version = "0.1.0"
edition = "2021"
publish = false

[dependencies]
uuid = { version = "=1.29.0", features = ["v4"] }
chrono = "=0.4.45"
regex = "=1.13.1"
glob = "=0.3.4"
aes-gcm = "=0.10.3"
argon2 = "=0.5.3"
dirs = "=5.0.1"
serde = { version = "=1.0.229", features = ["derive"] }
serde_json = "=1.0.154"
toml = "=0.8.23"
toml_edit = "=0.22.27"
tokio = { version = "=1.54.1", features = ["rt-multi-thread", "macros", "time", "sync", "net"] }
tracing = "=0.1.44"
tracing-appender = "0.2"
anyhow = "=1.0.104"
futures = "0.3"
async-trait = "0.1"
axum = "0.7"
tower-http = { version = "0.5", features = ["cors", "trace"] }
reqwest = { version = "0.12", default-features = false, features = ["json", "rustls-tls"] }
dialoguer = "0.11"
console = "0.15"
owo-colors = "4"
