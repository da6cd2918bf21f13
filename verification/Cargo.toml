[package]
name = "dry_agent"
version = "0.1.0"
edition = "2021"
publish = false

[dependencies]
uuid = { version = "=1.27.0", features = ["v4"] }
serde = { version = "*", features = ["derive"] }
serde_json = "*"
anyhow = "*"
tokio = { version = "*", features = ["full"] }
async-openai = { version = "=0.42.1", features = ["chat-completion"] }
paho-mqtt = "=0.14.0"
dirs = "*"
dotenv = "*"
env_logger = "*"
