[package]
name = "starboard_core"
version = "0.1.0"
edition = "2021"
publish = false

[dependencies]
twilight-model = "*"
twilight-util = { version = "*", features = ["builder"] }
serde = { version = "*", features = ["derive"] }
serde_json = "*"
chrono = "*"
tokio = { version = "*", features = ["rt", "macros", "time"] }
