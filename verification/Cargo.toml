[package]
name = "rozsdhabot"
version = "0.1.0"
edition = "2021"
publish = false

[dependencies]
anyhow = "=1.0.104"
async-trait = "=0.1.92"
chrono = "=0.4.45"
fake_user_agent = "=0.2.3"
reqwest = "=0.12.28"
scraper = "=0.27.0"
serde = { version = "=1.0.229", features = ["derive"] }
serde_json = "=1.0.151"
takecell = "=0.1.1"
teloxide = "=0.17.0"
tokio = { version = "=1.53.2", features = ["full"] }
tracing = "=0.1.44"
tracing-subscriber = { version = "=0.3.23", features = ["env-filter"] }
url = "=2.5.8"
