[package]
name = "xiuxian_wendao_julia"
version = "0.1.0"
edition = "2021"
publish = false

[dependencies]
serde = { version = "=1.0.229", features = ["derive"] }
serde_json = "=1.0.154"
toml = "=1.1.8"
walkdir = "=2.5.0"
arrow = { version = "=60.1.0", default-features = false, features = ["ipc"] }
arrow-ipc = "=60.1.0"
arrow-flight = "=60.1.0"
serde_yaml = "=0.9.34"
chrono = { version = "=0.4.45", default-features = false, features = ["clock"] }
tonic = "*"
futures = "*"
tokio = { version = "*", features = ["net", "time"] }
