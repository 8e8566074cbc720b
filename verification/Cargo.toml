[package]
name = "wake_runner"
version = "0.1.0"
edition = "2021"
publish = false

[dependencies]
uuid = { version = "1", features = ["v4"] }
tokio = { version = "1", features = ["full"] }
tokio-util = "0.7"
axum = "*"
reqwest = { version = "*", default-features = false, features = ["json"] }
serde = { version = "1", features = ["derive"] }
serde_json = "1"
toml = "*"
mac_address = "1"
network-interface = "*"
listenfd = "1"
system_shutdown = "*"
directories = "*"
futures = "0.3"
once_cell = "1"
notify = "*"
