[package]
name = "allocation"
version = "0.1.0"
edition = "2021"
publish = false

[dependencies]
axum = "0.6"
bb8 = "0.8"
diesel = "2.1"
diesel-async = { version = "0.3", features = ["postgres", "bb8"] }
serde = { version = "1", features = ["derive"] }
tokio = { version = "1", features = ["full"] }
tracing = "0.1"
tracing-subscriber = { version = "0.3", features = ["env-filter"] }
