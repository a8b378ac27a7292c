[package]
name = "sensor_exporter"
version = "0.1.0"
edition = "2021"
publish = false

[dependencies]
bytes = "0.5"
futures = "0.3"
log = "0.4"
pretty_env_logger = "0.4"
prometheus = "0.9"
tokio = { version = "0.2", features = ["full"] }
tokio-serial = { version = "4.3", default-features = false }
tokio-util = { version = "0.3", features = ["codec"] }
warp = "0.2"
