[package]
name = "server_fisiere"
version = "0.1.0"
edition = "2021"
publish = false

[dependencies]
error-stack = "0.3"
serde = { version = "1", features = ["derive"] }
serde_yaml = "0.9"
tokio = { version = "1", features = ["fs", "io-util", "macros", "net", "rt-multi-thread", "time"] }
