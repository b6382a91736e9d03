[package]
name = "legal_engine"
version = "0.1.0"
edition = "2021"
publish = false

[dependencies]
anyhow = "=1.0.104"
async-trait = "=0.1.92"
axum = "=0.8.9"
candle-core = "=0.11.0"
candle-transformers = "=0.11.0"
reqwest = { version = "=0.13.5", default-features = false, features = ["rustls"] }
scraper = "=0.27.0"
serde = { version = "=1.0.229", features = ["derive"] }
serde_json = "=1.0.151"
tokenizers = { version = "=0.22.2", default-features = false, features = ["onig"] }
tokio = { version = "=1.53.2", features = ["full"] }
urlencoding = "=2.1.3"
