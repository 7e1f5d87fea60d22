[package]
name = "account_ledger"
version = "0.1.0"
edition = "2021"
publish = false

[dependencies]
actix-web = "4"
chrono = "0.4"
diesel = { version = "2", features = ["postgres", "r2d2"] }
dotenvy = "0.15"
env_logger = "0.11"
serde = { version = "1", features = ["derive"] }
sqlx = { version = "0.7", default-features = false, features = ["postgres", "runtime-tokio", "macros"] }
