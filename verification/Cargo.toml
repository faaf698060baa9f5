[package]
name = "travelgraph_router"
version = "0.1.0"
edition = "2021"
publish = false

[dependencies]
anyhow = "1"
apollo-compiler = "1"
axum = "0.7"
dashmap = "6"
futures = "0.3"
governor = "0.6"
hex = "0.4"
hmac = "0.12"
jsonwebtoken = "9"
metrics = "0.23"
metrics-exporter-prometheus = "0.15"
once_cell = "1"
opentelemetry = "0.23"
opentelemetry-otlp = "0.16"
opentelemetry_sdk = { version = "0.23", features = ["rt-tokio"] }
parking_lot = "0.12"
redis = { version = "0.25", features = ["tokio-comp", "connection-manager"] }
reqwest = { version = "0.12", default-features = false, features = ["json"] }
serde = { version = "1", features = ["derive"] }
serde_json = "1"
sha2 = "0.10"
thiserror = "1"
tokio = { version = "1", features = ["full"] }
toml = "0.8"
tower = { version = "0.4", features = ["util"] }
tower-http = { version = "0.5", features = ["trace"] }
tracing = "0.1"
tracing-opentelemetry = "0.24"
tracing-subscriber = { version = "0.3", features = ["json", "env-filter"] }
uuid = { version = "1", features = ["v4"] }
