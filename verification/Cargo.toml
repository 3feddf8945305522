[package]
name = "telemetry_batteries"
version = "0.1.0"
edition = "2021"
publish = false

[dependencies]
backtrace = "*"
chrono = "*"
color-eyre = "*"
dirs = "*"
http = "*"
metrics = "*"
metrics-exporter-statsd = "*"
opentelemetry = "*"
opentelemetry-http = "*"
opentelemetry_sdk = "*"
rand = "*"
serde_json = "*"
tower = "*"
tracing = "*"
tracing-appender = "*"
tracing-error = "*"
tracing-opentelemetry = "*"
tracing-subscriber = { version = "*", features = ["env-filter", "json"] }
