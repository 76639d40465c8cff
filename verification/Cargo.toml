[package]
name = "bc_server"
version = "0.1.0"
edition = "2021"
publish = false

[dependencies]
regex = "1"
chrono = { version = "0.4", default-features = false, features = ["clock", "std"] }
rand = "0.8"
base64 = "0.22"
bcrypt = "0.15"
anyhow = "1"
serde = { version = "1", features = ["derive"] }
serde_json = "1"
tokio = { version = "1", features = ["full"] }
axum = "0.7"
socketioxide = "0.15"
tower-http = { version = "0.6", features = ["cors"] }
tracing = "0.1"
tracing-subscriber = { version = "0.3", features = ["env-filter"] }
dotenvy = "0.15"
parking_lot = "0.12"
futures-util = "0.3"
mongodb = "3"
sqlx = { version = "0.8", default-features = false, features = ["sqlite", "runtime-tokio"] }
lettre = { version = "0.11", default-features = false, features = ["smtp-transport", "tokio1", "tokio1-rustls-tls", "builder"] }
once_cell = "1"
