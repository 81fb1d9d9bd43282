[package]
name = "agentflow"
version = "0.1.0"
edition = "2021"
publish = false

[dependencies]
anyhow = "*"
async-stream = "*"
axum = { version = "*", features = ["ws"] }
chrono = "*"
clap = { version = "*", features = ["derive"] }
dotenvy = "*"
futures = "*"
nix = { version = "*", features = ["signal"] }
serde = { version = "*", features = ["derive"] }
serde_json = "*"
shellexpand = "*"
sqlx = { version = "*", features = ["sqlite", "runtime-tokio"] }
thiserror = "*"
tokio = { version = "*", features = ["full"] }
tower-http = { version = "*", features = ["cors", "fs", "trace"] }
uuid = { version = "*", features = ["v4"] }
