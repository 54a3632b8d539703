[package]
name = "callipe"
version = "0.1.0"
edition = "2021"
publish = false

[dependencies]
anyhow = "1"
axum = "0.6"
hyper = "0.14"
num_cpus = "1"
prometheus = "0.13"
serde = { version = "1", features = ["derive"] }
systemstat = "0.2"
tokio = { version = "1", features = ["full"] }
