[package]
name = "alice_games"
version = "0.1.0"
edition = "2021"
publish = false

[dependencies]
rand = "0.8"
serde = { version = "1", features = ["derive"] }
serde_json = "1"
actix = "0.13"
actix-web = "4"
actix-cors = "0.7"
env_logger = "0.11"
futures = "0.3"
log = "0.4"
