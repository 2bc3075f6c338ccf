[package]
name = "activity_manager"
version = "0.1.0"
edition = "2021"
publish = false

[dependencies]
bitvec = "1"
serde_json = "1"
tokio = { version = "1", features = ["full"] }
clap = { version = "4", features = ["derive"] }
chrono = "0.4"
