[package]
name = "queue_query"
version = "0.1.0"
edition = "2021"
publish = false

[dependencies]
anyhow = "=1.0.104"
arrow = "=60.0.0"
axum = "=0.8.9"
duckdb = "=1.10506.0"
prqlc = "=0.13.14"
serde = { version = "=1.0.229", features = ["derive"] }
tempfile = "=3.27.0"
tokio = { version = "=1.53.2", features = ["full"] }
