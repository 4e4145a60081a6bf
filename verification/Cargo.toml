[package]
name = "bingo"
version = "0.1.0"
edition = "2021"
publish = false

[dependencies]
arc-swap = "*"
axum = "*"
axum-macros = "*"
chrono = "*"
dotenvy = "*"
rand = "*"
serde = { version = "*", features = ["derive"] }
tokio = { version = "*", features = ["full"] }
tower = "*"
tower-http = { version = "*", features = ["trace"] }
tracing = "*"
tracing-subscriber = "*"
uuid = { version = "*", features = ["v4", "serde"] }
