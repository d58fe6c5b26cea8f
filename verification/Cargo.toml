[package]
name = "worklogger"
version = "0.1.0"
edition = "2021"
publish = false

[dependencies]
serde = { version = "=1.0.229", features = ["derive"] }
serde_json = "=1.0.154"
thiserror = "=2.0.21"
atomic-write-file = "=0.2.3"
time = { version = "0.3", features = ["parsing"] }
