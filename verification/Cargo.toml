[package]
name = "telemetry"
version = "0.2.0"
edition = "2021"
publish = false

[dependencies]
async-trait = "0.1"
http = "=1.5.0"
opentelemetry = "0.32"
opentelemetry-appender-tracing = "0.32"
opentelemetry-http = { version = "0.32", features = ["reqwest-blocking"] }
opentelemetry-otlp = { version = "0.32", default-features = false, features = ["http-proto", "logs", "trace"] }
opentelemetry-proto = { version = "0.32", default-features = false, features = ["gen-tonic-messages", "logs"] }
opentelemetry-semantic-conventions = "0.32"
opentelemetry_sdk = "0.32"
prost = "=0.14.4"
reqwest = { version = "=0.13.5", default-features = false, features = ["blocking", "rustls-no-provider"] }
reqwest-middleware = "=0.5.2"
reqwest-tracing = { version = "=0.7.1", features = ["opentelemetry_0_32"] }
rustls = { version = "=0.23.46", default-features = false, features = ["ring", "std", "tls12"] }
serde = { version = "1", features = ["derive"] }
serde_json = "=1.0.154"
tracing = "0.1"
tracing-opentelemetry = "0.33"
tracing-subscriber = { version = "0.3", features = ["env-filter"] }
