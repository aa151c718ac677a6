[package]
name = "claw_pen"
version = "0.1.0"
edition = "2021"
publish = false

[dependencies]
serde = { version = "*", features = ["derive"] }
serde_json = "*"
bollard = "*"
tokio = { version = "*", features = ["rt", "rt-multi-thread", "macros", "time", "sync"] }
anyhow = "*"
