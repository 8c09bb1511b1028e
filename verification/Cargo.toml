[package]
name = "heatctl"
version = "0.1.0"
edition = "2021"
publish = false

[dependencies]
bytes = "=1.12.1"
rumqttc = "=0.25.1"
serde = { version = "=1.0.229", features = ["derive"] }
serde_json = "=1.0.151"
serde_yaml = "=0.9.34"
tokio = { version = "=1.53.2", features = ["fs", "io-util", "macros", "rt-multi-thread", "sync", "time"] }
tracing = "=0.1.44"
uuid = { version = "=1.27.0", features = ["v4"] }
