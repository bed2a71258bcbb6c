[package]
name = "media_pipeline"
version = "0.1.0"
edition = "2021"
publish = false

[dependencies]
url = "=2.5.8"
shlex = "=2.0.1"
clamav-client = { version = "=2.3.0", features = ["tokio-stream"] }
serde = { version = "=1.0.229", features = ["derive"] }
serde_json = "=1.0.151"
tokio = { version = "=1.53.2", features = ["full"] }
axum = { version = "=0.8.9", features = ["multipart", "macros"] }
axum-extra = { version = "=0.12.6", features = ["cookie"] }
axum-client-ip = "=1.3.1"
tower = "=0.5.3"
aws-config = { version = "=1.12.0", features = ["behavior-version-latest"] }
aws-sdk-s3 = "=1.152.0"
aws-sdk-sqs = "=1.114.0"
diesel = { version = "=2.3.14", features = ["postgres", "chrono", "uuid", "numeric"] }
bigdecimal = "=0.4.11"
chrono = { version = "=0.4.45", features = ["serde"] }
uuid = { version = "=1.27.0", features = ["v4"] }
reqwest = { version = "=0.12.28", default-features = false, features = ["rustls-tls", "stream", "json", "cookies"] }
futures-util = "=0.3.34"
http-body-util = "=0.1.5"
tokio-util = { version = "=0.7.19", features = ["io"] }
base64 = "=0.22.1"
urlencoding = "=2.1.3"
