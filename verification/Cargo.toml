[package]
name = "first_bot"
version = "0.1.0"
edition = "2021"
publish = false

[dependencies]
anyhow = "1"
chrono = "0.4"
chrono-tz = "0.8"
env_logger = "0.10"
log = "0.4"
poise = "0.6"
sqlx = { version = "0.7", default-features = false, features = ["chrono", "migrate", "postgres", "runtime-tokio"] }
tokio = { version = "1", features = ["macros", "rt-multi-thread"] }
