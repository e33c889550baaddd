[package]
name = "observability"
version = "0.2.0"
edition = "2021"
publish = false

[dependencies]
hdrhistogram = { version = "=7.6.0", default-features = false }
metrics = "=0.24.6"
metrics-exporter-otel = "=0.3.1"
metrics-exporter-prometheus = { version = "=0.18.3", default-features = false, features = ["http-listener"] }
opentelemetry = "=0.31.0"
opentelemetry-appender-tracing = "=0.31.1"
opentelemetry-otlp = { version = "=0.31.1", features = ["grpc-tonic"] }
opentelemetry_sdk = "=0.31.0"
thiserror = "=2.0.21"
tokio = { version = "=1.54.1", features = ["rt", "time"] }
tracing = "=0.1.44"
tracing-appender = "=0.2.5"
tracing-bunyan-formatter = "=0.3.11"
tracing-opentelemetry = "=0.32.1"
tracing-subscriber = { version = "=0.3.23", features = ["env-filter", "json"] }
