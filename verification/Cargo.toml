[package]
name = "rgbw_dashboard"
version = "0.1.0"
edition = "2021"
publish = false

[dependencies]
configparser = "3"
dirs = "5"
regex = "1"
serde = { version = "1", features = ["derive"] }
serde_json = "1"
serialport = { version = "4", default-features = false }
tokio = { version = "1", features = ["io-util", "macros", "process", "rt", "time"] }
tracing = "0.1"
tracing-subscriber = { version = "0.3", features = ["env-filter"] }
uuid = { version = "1", features = ["v4"] }
