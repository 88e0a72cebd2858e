[package]
name = "lambda_web_gateway"
version = "0.1.0"
edition = "2021"
publish = false

[dependencies]
anyhow = "1"
aws-config = "1"
aws-sdk-lambda = "1"
aws-smithy-types = "1"
aws_lambda_events = { version = "*", default-features = false, features = ["alb"] }
axum = "0.7"
base64 = "0.22"
bytes = "1"
http = "1"
serde = { version = "1", features = ["derive"] }
serde_json = "1"
serde_yaml = "0.9"
tokio = { version = "1", features = ["full"] }
tokio-stream = "0.1"
tower-http = { version = "0.5", features = ["trace"] }
tracing = "0.1"
tracing-subscriber = "0.3"
