[package]
name = "server"
version = "0.1.0"
edition = "2021"
publish = false

[dependencies]
anyhow = "*"
axum = "*"
clap = { version = "*", features = ["derive", "env"] }
dotenv = "*"
env_logger = "*"
serde = { version = "*", features = ["derive"] }
serde_json = "*"
sqlx = { version = "=0.8.6", default-features = false, features = ["postgres", "runtime-tokio", "migrate"] }
tokio = { version = "*", features = ["full"] }
tower = { version = "*", features = ["buffer", "limit", "util"] }
tower_governor = "*"
tower-http = { version = "*", features = ["trace"] }
tower-request-id = "*"
tracing = "*"
