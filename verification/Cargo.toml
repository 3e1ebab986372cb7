[package]
name = "rustconvert"
version = "0.1.0"
edition = "2021"
publish = false

[dependencies]
axum = { version = "0.8", features = ["multipart"] }
image = { version = "0.25", default-features = false, features = ["png", "jpeg"] }
tempfile = "3"
tokio = { version = "1", features = ["full"] }
tower-http = { version = "0.6", features = ["cors"] }
tracing = "0.1"
tracing-subscriber = "0.3"
uuid = { version = "1", features = ["v4"] }
zip = { version = "2", default-features = false, features = ["deflate", "time"] }
