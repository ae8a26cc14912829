[package]
name = "dab_radio"
version = "0.1.0"
edition = "2021"
publish = false

[dependencies]
actix-web = { version = "4", default-features = false, features = ["macros"] }
actix-cors = "0.7"
actix-files = "0.6"
actix-ws = "0.3"
anyhow = "1"
bytes = "1"
chrono = { version = "0.4", features = ["serde"] }
crossbeam-channel = "0.5"
futures = "0.3"
mdns-sd = "*"
num-complex = "0.4"
parking_lot = "0.12"
serde = { version = "1", features = ["derive"] }
serde_json = "1"
tokio = { version = "1", features = ["full"] }
tracing = "0.1"
tracing-subscriber = { version = "0.3", features = ["env-filter"] }
uuid = { version = "1", features = ["v4", "serde"] }
