[package]
name = "wol"
version = "0.1.0"
edition = "2021"
publish = false

[dependencies]
axum = "*"
tokio = { version = "*", features = ["rt-multi-thread", "macros", "net"] }
tracing = "*"
tracing-subscriber = { version = "*", features = ["env-filter", "fmt"] }
