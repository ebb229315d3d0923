[package]
name = "reverbq"
version = "0.1.0"
edition = "2021"
publish = false

[dependencies]
rand = "*"
actix = "*"
actix-files = "*"
actix-rt = "*"
actix-web = "*"
actix-web-actors = "*"
dotenv = "*"
env_logger = "*"
serde = { version = "*", features = ["derive"] }
tera = "*"
tokio = { version = "*", features = ["process", "macros", "rt-multi-thread"] }
