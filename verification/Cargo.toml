[package]
name = "rmqtt_things"
version = "0.1.0"
edition = "2021"
publish = false

[dependencies]
hmac = "=0.12.1"
sha1 = "=0.10.7"
sha2 = "=0.10.9"
hex = "=0.4.3"
base64 = "=0.22.1"
constant_time_eq = "=0.6.1"
rand = "=0.9.5"
uuid = { version = "=1.29.0", features = ["v4"] }
reqwest = { version = "=0.12.28", default-features = false }
serde = { version = "=1.0.229", features = ["derive"] }
serde_json = "=1.0.154"
axum = "=0.8.9"
time = { version = "=0.3.55", features = ["formatting", "parsing", "serde"] }
anyhow = "=1.0.104"
herald-sdk = "=0.6.8"
jsonschema = { version = "*", default-features = false }
