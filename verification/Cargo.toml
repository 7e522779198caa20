[package]
name = "todo_core"
version = "0.1.0"
edition = "2021"
publish = false

[dependencies]
jsonwebtoken = "9"
serde_json = "1"
chrono = "0.4"
serde = { version = "1", features = ["derive"] }
log = "0.4"
env_logger = "0.11"
actix-web = { version = "4", default-features = false, features = ["macros"] }
actix-files = "0.6"
