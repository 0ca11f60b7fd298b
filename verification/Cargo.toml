[package]
name = "beansd"
version = "0.1.0"
edition = "2021"
publish = false

[dependencies]
anyhow = "=1.0.104"
askama = "=0.12.1"
async-trait = "=0.1.92"
axum = "=0.7.9"
clap = { version = "=4.6.7", features = ["derive"] }
nix = { version = "=0.29.0", features = ["signal", "time"] }
reqwest = { version = "=0.12.28", default-features = false }
serde = { version = "=1.0.229", features = ["derive"] }
serde_json = "=1.0.154"
tokio = { version = "=1.54.1", features = ["full"] }
toml = "=0.8.23"
tracing = "=0.1.44"
tracing-subscriber = { version = "=0.3.23", features = ["env-filter"] }
xdg = "=2.5.2"
