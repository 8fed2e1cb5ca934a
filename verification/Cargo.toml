[package]
name = "terraform_model"
version = "0.1.0"
edition = "2021"
publish = false

[dependencies]
actix-files = "=0.7.0"
actix-web = "=4.15.0"
async-openai = { version = "=0.42.1", features = ["chat-completion"] }
dotenv = "=0.15.0"
env_logger = "=0.11.11"
log = "=0.4.34"
ruml = "=0.1.0"
serde = { version = "=1.0.229", features = ["derive"] }
tera = "=2.4.0"
