[package]
name = "animus"
version = "0.1.0"
edition = "2021"
publish = false

[dependencies]
axum = "=0.8.9"
axum-extra = { version = "=0.10.3", features = ["typed-header"] }
base64 = "=0.22.1"
bytes = "=1.12.1"
csv-async = { version = "=1.3.1", features = ["tokio"] }
futures = "=0.3.34"
headers-accept = "=0.3.0"
http = "=1.5.0"
mediatype = "=0.21.0"
reqwest = { version = "=0.12.28", default-features = false, features = ["stream"] }
serde = { version = "=1.0.229", features = ["derive"] }
thiserror = "=2.0.21"
tokio = { version = "=1.54.1", features = ["full"] }
tokio-util = { version = "=0.7.20", features = ["io", "rt"] }
tracing = "=0.1.44"
validator = { version = "0.20", features = ["derive"] }
