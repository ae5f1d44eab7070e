[package]
name = "devin_process"
version = "0.1.0"
edition = "2021"
publish = false

[dependencies]
asupersync = { version = "=0.2.9", default-features = false }
async-trait = "=0.1.92"
chrono = { version = "=0.4.45", features = ["serde"] }
serde = { version = "=1.0.229", features = ["derive"] }
serde_json = "=1.0.154"
sha2 = "=0.10.9"
uuid = { version = "=1.29.0", features = ["v4"] }
