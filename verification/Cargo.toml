[package]
name = "inferlets"
version = "0.1.0"
edition = "2021"
publish = false

[dependencies]
futures = "=0.3.34"
inferlet = "=0.5.2"
serde = { version = "=1.0.229", features = ["derive"] }
serde_json = "=1.0.154"
