[package]
name = "nitro_agent"
version = "0.1.0"
edition = "2021"
publish = false

[dependencies]
pulldown-cmark = { version = "=0.12.2", default-features = false }
serde_json = "=1.0.154"
serde = { version = "=1.0.229", features = ["derive"] }
toml = "=0.8.23"
chrono = "=0.4.45"
dotenvy = "=0.15.7"
tracing = "=0.1.44"
tracing-subscriber = { version = "=0.3.23", features = ["env-filter"] }
tokio = { version = "=1.54.1", features = ["full"] }
sqlx = { version = "=0.8.6", default-features = false, features = ["runtime-tokio", "sqlite", "macros"] }
teloxide = { version = "=0.13.0", default-features = false, features = ["rustls", "ctrlc_handler"] }
takecell = "=0.1.1"
