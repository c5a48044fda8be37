[package]
name = "xenon"
version = "0.1.0"
edition = "2021"
publish = false

[dependencies]
hex = "0.4"
sha2 = "0.10"
argon2 = { version = "0.5", features = ["std"] }
uuid = { version = "1", features = ["v7", "serde"] }
infer = "0.16"
p256 = { version = "0.13", features = ["ecdh", "ecdsa"] }
hkdf = "0.12"
aes-gcm = "0.10"
base64 = "0.22"
rand_core = { version = "0.6", features = ["getrandom"] }
tokio = { version = "1", features = ["full"] }
serde = { version = "1", features = ["derive"] }
serde_json = "1"
toml = "0.8"
tracing = "0.1"
axum = { version = "0.8", features = ["ws", "multipart"] }
sqlx = { version = "0.8", default-features = false, features = ["sqlite", "runtime-tokio", "uuid", "macros", "derive"] }
futures-util = { version = "0.3", features = ["sink"] }
tokio-util = { version = "0.7", features = ["io"] }
reqwest = { version = "0.12", default-features = false, features = ["rustls-tls"] }
tokio-tungstenite = "0.24"
