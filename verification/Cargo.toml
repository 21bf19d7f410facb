[package]
name = "quote_aggregator"
version = "0.1.0"
edition = "2021"
publish = false

[dependencies]
axum = "0.6"
dashmap = "5.5"
ethers-core = "2.0"
futures = "0.3"
indexmap = "2"
lazy_static = "1"
rand = "0.8"
regex = "1"
reqwest = { version = "0.11", default-features = false, features = ["json", "rustls-tls"] }
rust_decimal = "1"
serde = { version = "1", features = ["derive"] }
serde_json = "1"
thiserror = "1"
tokio = { version = "1", features = ["full"] }
tower = "0.4"
tower-http = { version = "0.4", features = ["cors", "trace"] }
tracing = "0.1"
tracing-subscriber = { version = "0.3", features = ["env-filter"] }
url = "2"
uuid = { version = "1", features = ["v4"] }
