[package]
name = "vm-agent"
version = "0.1.0"
edition = "2021"
publish = false

[dependencies]
anyhow = "=1.0.104"
axum = "=0.6.20"
axum-tracing-opentelemetry = "0.11"
bincode = "=1.3.3"
byteorder = "=1.5.0"
hyper = { version = "=0.14.32", features = ["full"] }
libc = "=0.2.191"
opentelemetry = { version = "0.19", features = ["rt-tokio"] }
opentelemetry-http = "0.8"
opentelemetry-otlp = "0.12"
opentelemetry-semantic-conventions = "0.11"
serde = { version = "=1.0.229", features = ["derive"] }
serde_json = "=1.0.154"
tokio = { version = "=1.54.1", features = ["full"] }
tokio-vsock = "=0.4.0"
tower = "=0.4.13"
tracing = "=0.1.44"
tracing-appender = "=0.2.5"
tracing-opentelemetry = "0.19"
tracing-subscriber = { version = "=0.3.23", features = ["env-filter"] }
vsock = "=0.3.0"
