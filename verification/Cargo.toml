[package]
name = "playoh"
version = "0.1.0"
edition = "2021"
publish = false

[dependencies]
anyhow = "1"
argon2 = "0.5"
askama = "0.12"
async-trait = "0.1"
axum = { version = "0.6", features = ["headers"] }
bytes = "1"
chrono = "0.4"
confique = { version = "0.2", features = ["toml"] }
headers = "0.3"
hyper = { version = "0.14", features = ["full"] }
jsonwebtoken = "8"
log = "0.4"
mime = "0.3"
once_cell = "1"
rand = "0.8"
serde = { version = "1", features = ["derive"] }
serde_json = "1"
sqlx = { version = "0.6", default-features = false, features = ["runtime-tokio-rustls", "postgres", "uuid", "time", "chrono", "macros"] }
thiserror = "1"
time = "0.3"
tokio = { version = "1", features = ["full"] }
tower-cookies = "0.9"
tracing = "0.1"
tracing-appender = "0.2"
tracing-subscriber = { version = "0.3", features = ["env-filter"] }
uuid = { version = "1", features = ["v4"] }
