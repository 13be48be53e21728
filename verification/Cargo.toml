[package]
name = "massload"
version = "0.1.0"
edition = "2021"
publish = false

[dependencies]
regex = "1"
chrono = "0.4"
serde = { version = "1", features = ["derive"] }
serde_json = "1"
clap = { version = "4", features = ["derive"] }
tokio = { version = "1", features = ["full"] }
reqwest = { version = "0.12", default-features = false, features = ["json", "rustls-tls"] }
jsonschema = { version = "0.30", default-features = false }
chardet = "0.2"
encoding_rs = "0.8"
uuid = { version = "1", features = ["v4"] }
dotenvy = "0.15"
axum = { version = "0.7", features = ["multipart"] }
futures = "0.3"
tokio-stream = { version = "0.1", features = ["sync"] }
tower-http = { version = "0.6", features = ["cors"] }
