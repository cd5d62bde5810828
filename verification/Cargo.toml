[package]
name = "mqtt_simulator"
version = "0.1.0"
edition = "2021"
publish = false

[dependencies]
serde_json = "1"
anyhow = "1"
log = "0.4"
env_logger = "*"
clap = "*"
rumqttc = "*"
tokio = { version = "1", features = ["fs", "time", "sync", "macros", "rt-multi-thread"] }
