[package]
name = "solforge"
version = "0.1.0"
edition = "2021"
publish = false

[dependencies]
chrono = { version = "=0.4.45", features = ["serde"] }
serde = { version = "=1.0.229", features = ["derive"] }
solana-program = "=2.3.0"
mongodb = "=3.9.1"
axum = "=0.7.9"
tokio = { version = "=1.54.1", features = ["rt-multi-thread", "macros", "net", "time"] }
futures = "=0.3.34"
log = "=0.4.35"
env_logger = { version = "=0.11.11", default-features = false }
