[package]
name = "metio"
version = "0.1.0"
edition = "2021"
publish = false

[dependencies]
chrono = "*"
serde_json = "*"
async-nats = "*"
futures = "*"
sqlx = { version = "*", default-features = false, features = ["sqlite", "runtime-tokio"] }
