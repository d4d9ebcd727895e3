[package]
name = "sametime"
version = "0.1.0"
edition = "2021"
publish = false

[dependencies]
dashmap = "=5.5.3"
tokio = { version = "=1.54.1", features = ["sync", "rt-multi-thread", "macros", "net", "fs", "io-util", "time"] }
uuid = { version = "=1.29.0", features = ["v4"] }
chrono = "=0.4.45"
bcrypt = "=0.15.1"
getrandom = "=0.2.17"
jsonwebtoken = "=9.3.1"
sha2 = "=0.10.9"
serde = { version = "=1.0.229", features = ["derive"] }
serde_json = { version = "=1.0.154", features = ["preserve_order"] }
axum = { version = "=0.7.9", features = ["ws", "multipart"] }
sqlx = { version = "=0.7.4", default-features = false, features = ["runtime-tokio", "sqlite", "macros"] }
tower-http = { version = "=0.5.2", features = ["cors"] }
tracing = "=0.1.44"
tracing-subscriber = "=0.3.23"
futures = "=0.3.34"
tokio-util = { version = "=0.7.20", features = ["io"] }
thiserror = "=1.0.69"
anyhow = "=1.0.104"
