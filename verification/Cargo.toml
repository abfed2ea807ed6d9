[package]
name = "edgesite"
version = "0.1.0"
edition = "2021"
publish = false

[dependencies]
percent-encoding = "*"
axum = "*"
tokio = { version = "*", features = ["rt-multi-thread", "macros", "net"] }
serde = { version = "*", features = ["derive"] }
tracing-subscriber = { version = "*", features = ["env-filter", "fmt"] }
