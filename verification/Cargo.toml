[package]
name = "rshunterbtt"
version = "0.1.0"
edition = "2021"
publish = false

[dependencies]
anyhow = "1"
async-trait = "0.1"
btleplug = "0.11"
chrono = { version = "0.4", features = ["serde"] }
dbus = "0.9"
dotenvy = "0.15"
futures = "0.3"
hex = "0.4"
influxdb = { version = "0.7", features = ["derive"] }
libc = "0.2"
rumqttc = "0.24"
serde = { version = "1", features = ["derive"] }
serde_json = "1"
tokio = { version = "1", features = ["full"] }
tracing = "0.1"
tracing-subscriber = "0.3"
uuid = "1"
