[package]
name = "dna_assistant"
version = "0.1.0"
edition = "2021"
publish = false

[dependencies]
image = { version = "*", default-features = false, features = ["png"] }
base64 = "*"
serde = { version = "*", features = ["derive"] }
serde_json = "*"
anyhow = "*"
tracing = "*"
tracing-subscriber = { version = "*", features = ["env-filter", "fmt"] }
clap = { version = "*", features = ["derive"] }
gethostname = "*"
reqwest = { version = "*", default-features = false, features = ["blocking", "json", "multipart", "rustls-tls"] }
rustls = { version = "*", default-features = false, features = ["ring", "std"] }
notify-rust = "*"
sysinfo = "*"
opentelemetry = "*"
opentelemetry_sdk = "*"
opentelemetry-otlp = { version = "*", features = ["http-proto", "reqwest-blocking-client", "metrics", "trace", "logs"] }
tracing-opentelemetry = "*"
opentelemetry-appender-tracing = "*"
