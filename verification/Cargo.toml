[package]
name = "chat_core"
version = "0.1.0"
edition = "2021"
publish = false

[dependencies]
bcrypt = "*"
chrono = { version = "0.4", default-features = false, features = ["clock", "std"] }
futures = "0.1"
openssl = "0.10"
rmp-serde = "*"
rusqlite = "*"
serde = { version = "1", features = ["derive"] }
serde_json = "1"
tokio-core = "0.1"
tokio-io = "0.1"
tokio-openssl = "0.3"
