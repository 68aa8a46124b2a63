[package]
name = "gei"
version = "0.1.0"
edition = "2021"
publish = false

[dependencies]
aes-gcm = "*"
serde_json = "*"
chrono = "*"
anyhow = "*"
console = "*"
sqlx = { version = "*", default-features = false, features = ["sqlite", "runtime-tokio"] }
tokio = { version = "*", features = ["rt-multi-thread", "macros"] }
