[package]
name = "agentmesh"
version = "0.1.0"
edition = "2021"
publish = false

[dependencies]
chrono = { version = "0.4", features = ["serde"] }
clap = { version = "4", features = ["derive"] }
directories = "5"
libc = "0.2"
log = "0.4"
serde = { version = "1", features = ["derive"] }
serde_json = { version = "1", features = ["preserve_order"] }
serde_yaml = "0.9"
thiserror = "1"
tokio = { version = "1", features = ["fs", "io-util", "process", "rt", "sync", "time"] }
uuid = { version = "1", features = ["v4"] }
