[package]
name = "mock_service"
version = "0.1.0"
edition = "2021"
publish = false

[dependencies]
regex = "*"
handlebars = "*"
serde_json = "*"
rquickjs = "*"
serde = { version = "*", features = ["derive"] }
actix-web = "*"
actix-cors = "*"
actix-multipart = "*"
futures-util = "*"
clap = { version = "*", features = ["derive"] }
env_logger = "*"
log = "*"
walkdir = "*"
