[package]
name = "telebots"
version = "0.1.0"
edition = "2021"
publish = false

[dependencies]
unicode-width = "=0.2.3"
heck = "=0.5.0"
serde = { version = "=1.0.229", features = ["derive"] }
serde_json = "=1.0.154"
anyhow = "=1.0.104"
thiserror = "=2.0.21"
async-trait = "=0.1.92"
tracing = "=0.1.44"
tracing-subscriber = { version = "=0.3.23", features = ["env-filter", "json"] }
tokio = { version = "=1.54.1", features = ["full"] }
axum = "=0.8.9"
reqwest = { version = "=0.12.28", default-features = false, features = ["json", "rustls-tls"] }
teloxide = { version = "=0.17.0", default-features = false, features = ["rustls", "ctrlc_handler"] }
takecell = ">=0.1.0, <0.1.2"
base64 = "=0.22.1"
dptree = "=0.5.1"
