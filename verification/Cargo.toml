[package]
name = "malcolm"
version = "0.1.0"
edition = "2021"
publish = false

[dependencies]
argon2 = "=0.5.3"
chacha20poly1305 = "=0.10.1"
egobox-ego = { version = "=0.42.0", default-features = false }
ndarray = "=0.16.1"
opentelemetry = "=0.33.1"
opentelemetry-otlp = { version = "=0.33.1", features = ["grpc-tonic"] }
opentelemetry_sdk = { version = "=0.33.1", features = ["testing"] }
prometheus = { version = "=0.14.0", default-features = false }
rand = "=0.10.3"
serde = { version = "1", features = ["derive"] }
serde_json = "1"
serde_yaml = "=0.9.34"
thiserror = "2"
toml = "=1.1.8"
tracing = "0.1"
tracing-opentelemetry = "=0.34.0"
tracing-subscriber = "0.3"
