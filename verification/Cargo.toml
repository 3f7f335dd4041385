[package]
name = "live_users"
version = "0.1.0"
edition = "2021"
publish = false

[dependencies]
axum = "=0.7.9"
serde = { version = "=1.0.229", features = ["derive"] }
shuttle-axum = "=0.47.0"
shuttle-runtime = "=0.47.0"
socketioxide = "=0.14.1"
tower-http = { version = "=0.5.2", features = ["cors"] }
