[package]
name = "hello_pipeline"
version = "0.1.0"
edition = "2021"
publish = false

[dependencies]
anyhow = "1"
axum = "0.1"
bytes = "1"
http = "0.2"
hyper = { version = "0.14", features = ["full"] }
structopt = "0.3"
tokio = { version = "1", features = ["full"] }
tower = { version = "0.4", features = ["full"] }
tower-http = { version = "0.1", features = ["full"] }
tracing = "0.1"
tracing-subscriber = { version = "0.2", features = ["json"] }
