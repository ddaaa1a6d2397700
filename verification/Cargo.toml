[package]
name = "risotto"
version = "0.1.0"
edition = "2021"
publish = false

[dependencies]
anyhow = "1"
bgpkit-parser = { version = "0.11", default-features = false, features = ["parser"] }
bincode = { version = "2", features = ["serde"] }
bytes = "1"
chrono = "0.4"
clap = { version = "4", features = ["derive"] }
clap-verbosity-flag = { version = "3", features = ["tracing"] }
futures = "0.3"
kafka = { version = "*", default-features = false }
metrics = "*"
metrics-exporter-prometheus = "*"
rand = "0.9"
rdkafka = "*"
serde = { version = "1", features = ["derive"] }
tokio = { version = "1", features = ["full"] }
tokio-graceful = "*"
tracing = "0.1"
tracing-subscriber = "0.3"
