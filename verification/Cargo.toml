[package]
name = "quadrant"
version = "0.1.0"
edition = "2021"
publish = false

[dependencies]
cosmrs = { version = "*", features = ["rpc"] }
prost = "*"
sha2 = "*"
hex = "*"
rusqlite = { version = "*", features = ["bundled"] }
r2d2 = "*"
r2d2_sqlite = "*"
tokio = { version = "*", features = ["full"] }
axum = "*"
clap = { version = "*", features = ["derive"] }
env_logger = "*"
log = "*"
serde = { version = "*", features = ["derive"] }
