[package]
name = "code_assistant"
version = "0.1.0"
edition = "2021"
publish = false

[dependencies]
regex = "1"
html-escape = "0.2"
uuid = { version = "1", features = ["v4", "serde"] }
chrono = { version = "0.4", features = ["serde"] }
serde = { version = "1", features = ["derive"] }
serde_json = "1"
serde_yaml = "0.9"
actix-web = "4"
tokio = { version = "1", features = ["full"] }
git2 = "*"
qdrant-client = "*"
llm_api_access = "*"
dotenv = "0.15"
rand = "0.9"
