[package]
name = "extension_update"
version = "0.1.0"
edition = "2021"
publish = false

[dependencies]
serde_json = "=1.0.154"
quick-xml = "=0.42.0"
chrono = { version = "=0.4.45", features = ["serde"] }
serde = { version = "=1.0.229", features = ["derive"] }
tokio = { version = "=1.54.1", features = ["rt-multi-thread", "macros", "time", "sync"] }
actix-web = "=4.18.1"
aws-sdk-dynamodb = "=1.134.0"
aws-config = { version = "=1.13.0", features = ["behavior-version-latest"] }
log = "=0.4.34"
env_logger = "=0.11.11"
clap = { version = "=4.6.7", features = ["derive"] }
dotenvy = "=0.15.7"
thiserror = "=2.0.21"
actix = "=0.13.5"
actix-service = "=2.0.3"
futures-util = "=0.3.34"
sqlx = { version = "=0.9.0", features = ["runtime-tokio", "postgres"] }
anyhow = "=1.0.104"
rand = "=0.9.5"
base64 = "=0.22.1"
derive_more = { version = "=2.1.1", features = ["display", "error", "from"] }
star-constellation = "=0.4.0"
