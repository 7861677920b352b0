[package]
name = "warehouse"
version = "0.1.0"
edition = "2021"
publish = false

[dependencies]
rand = "0.8"
actix-web = "4"
actix-cors = "*"
serde = { version = "1", features = ["derive"] }
log = "0.4"
env_logger = "*"
dotenv = "0.15"
