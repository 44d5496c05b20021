[package]
name = "ipwned"
version = "0.1.0"
edition = "2021"
publish = false

[dependencies]
argh = "=0.1.19"
bytes = "=1.12.1"
chrono = "=0.4.45"
ciborium = "=0.2.2"
faster-hex = "=0.10.1"
futures = "=0.3.34"
indicatif = "=0.18.6"
indicatif-log-bridge = "=0.2.3"
log = "=0.4.34"
parse_duration = "=2.1.1"
pretty-duration = "=0.1.1"
qfilter = { version = "=0.1.6", features = ["serde"] }
reqwest = "=0.13.5"
rocket = "=0.5.2"
rusqlite = "=0.40.2"
simplelog = "=0.12.2"
tokio = { version = "=1.54.1", features = ["macros", "rt", "signal", "sync", "time"] }
tokio-rusqlite = "=0.8.0"

[dev-dependencies]
http = "=1.5.0"
