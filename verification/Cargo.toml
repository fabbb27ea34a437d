[package]
name = "glsst"
version = "0.1.0"
edition = "2021"
publish = false

[dependencies]
ed25519-dalek = "=1.0.1"
hex = "=0.4.3"
chrono = "=0.4.45"
uuid = { version = "=1.29.0", features = ["v4"] }
fake = "=2.10.0"
serde = { version = "=1.0.229", features = ["derive"] }
serde_json = "=1.0.154"
tokio = { version = "=1.54.1", features = ["macros", "rt-multi-thread"] }
tracing = "=0.1.44"
tracing-subscriber = "=0.3.23"
ureq = "=2.9.1"
lambda_runtime = "=1.5.0"
lambda_http = "=1.3.2"
aws-config = "=1.13.0"
aws-sdk-dynamodb = "=1.136.0"
aws-sdk-lambda = "=1.156.0"
