[package]
name = "battery_sim"
version = "0.1.0"
edition = "2021"
publish = false

[dependencies]
anyhow = "1"
backoff = "0.4"
chrono = { version = "0.4", features = ["serde"] }
clap = { version = "4", features = ["derive"] }
dotenvy = "0.15"
dsmr5 = "*"
rayon = "1"
serde = { version = "1", features = ["derive"] }
serde_json = "1"
serialport = { version = "4", default-features = false }
sqlx = { version = "0.8", default-features = false, features = ["postgres", "runtime-tokio", "chrono", "migrate"] }
thiserror = "*"
tokio = { version = "1", features = ["rt", "macros", "net", "time", "sync"] }
tokio-modbus = { version = "*", default-features = false, features = ["tcp", "tcp-server"] }
