[package]
name = "sandslash"
version = "0.1.0"
edition = "2021"
publish = false

[dependencies]
url = "2"
scraper = "*"
quick-xml = "*"
encoding_rs = "*"
serde = { version = "1", features = ["derive"] }
serde_json = "1"
comfy-table = { version = "*", default-features = false }
owo-colors = "*"
chrono = { version = "0.4", default-features = false, features = ["clock", "std"] }
tokio = { version = "1", features = ["full"] }
tokio-stream = { version = "*", features = ["sync"] }
futures = "*"
reqwest = { version = "0.12", default-features = false, features = ["rustls-tls"] }
redis = { version = "*", default-features = false, features = ["tokio-comp", "connection-manager", "script"] }
governor = "*"
dashmap = "*"
axum = "*"
tower-http = { version = "*", features = ["cors"] }
uuid = { version = "1", features = ["v4"] }
clap = { version = "4", features = ["derive", "env"] }
anyhow = "1"
thiserror = "*"
dotenvy = "*"
tracing = "*"
tracing-subscriber = { version = "*", features = ["env-filter"] }
async-trait = "*"
