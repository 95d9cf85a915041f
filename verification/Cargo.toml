[package]
name = "publo"
version = "0.1.0"
edition = "2021"
publish = false

[dependencies]
url = "2"
sha2 = "0.10"
base64 = "0.22"
urlencoding = "2"
chrono = "0.4"
rand = "0.9"
uuid = { version = "1", features = ["v4"] }
scraper = "*"
serde = { version = "1", features = ["derive"] }
serde_json = "1"
toml = "*"
clap = { version = "4", features = ["derive"] }
dotenvy = "0.15"
tokio = { version = "1", features = ["full"] }
axum = "0.8"
reqwest = { version = "0.12", features = ["json"] }
diesel = { version = "2", features = ["sqlite"] }
diesel_migrations = "2"
webbrowser = "1"
