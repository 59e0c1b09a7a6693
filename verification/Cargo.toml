[package]
name = "uptimers"
version = "0.1.0"
edition = "2021"
publish = false

[dependencies]
actix-web = { version = "*", default-features = false, features = ["macros"] }
askama = "*"
clap = { version = "*", features = ["derive", "env"] }
env_logger = "*"
futures = "*"
log = "*"
reqwest = { version = "*", default-features = false }
serde = { version = "*", features = ["derive"] }
serde_yaml = "*"
sqlx = { version = "*", default-features = false, features = ["runtime-tokio", "postgres"] }
thiserror = "*"
time = "*"
