[package]
name = "quizinart"
version = "0.1.0"
edition = "2021"
publish = false

[dependencies]
rand = "=0.8.8"
argon2 = "=0.5.3"
sha2 = "=0.10.9"
urlencoding = "=2.1.3"
ulid = "=1.2.1"
serde = { version = "=1.0.229", features = ["derive"] }
serde_json = "=1.0.154"
axum = { version = "=0.8.9", features = ["multipart"] }
axum-extra = { version = "=0.10.3", features = ["cookie"] }
tokio = { version = "=1.54.1", features = ["full"] }
sqlx = { version = "=0.8.6", default-features = false, features = ["runtime-tokio", "postgres"] }
maud = { version = "=0.27.0", features = ["axum"] }
tracing = "=0.1.44"
tracing-subscriber = { version = "=0.3.23", features = ["env-filter"] }
clap = { version = "=4.6.7", features = ["derive", "env"] }
color-eyre = "=0.6.5"
dotenvy = "=0.15.7"
reqwest = { version = "=0.12.28", default-features = false, features = ["json", "rustls-tls"] }
tower-http = { version = "=0.6.11", features = ["compression-gzip"] }
tower_governor = "=0.7.0"
