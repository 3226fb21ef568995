[package]
name = "hornet2"
version = "0.1.0"
edition = "2021"
publish = false

[dependencies]
petgraph = "=0.6.5"
regex = "=1.13.1"
serde = { version = "=1.0.229", features = ["derive"] }
serde_json = "=1.0.154"
serde_yaml = "=0.9.34"
oas3 = "=0.22.0"
clap = { version = "=4.6.7", features = ["derive"] }
colored = "=2.2.0"
chrono = "=0.4.45"
hex = "=0.4.3"
base64 = "=0.22.1"
thiserror = "=1.0.69"
tokio = { version = "=1.54.1", features = ["full"] }
axum = { version = "=0.8.9", features = ["ws"] }
tower-http = { version = "=0.6.11", features = ["cors", "fs"] }
mime_guess = "=2.0.5"
tower-lsp = "=0.20.0"
dashmap = "=6.2.1"
parking_lot = "=0.12.5"
futures = "=0.3.34"
prost = "=0.13.5"
opentelemetry-proto = { version = "=0.27.0", default-features = false, features = ["gen-tonic-messages", "trace", "with-serde"] }
rusqlite = { version = "=0.32.1", features = ["bundled"] }
uuid = { version = "=1.29.0", features = ["v4"] }

[dev-dependencies]
tempfile = "=3.27.0"
