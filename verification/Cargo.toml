[package]
name = "m3u8_queue"
version = "0.1.0"
edition = "2021"
publish = false

[dependencies]
regex = "1"
encoding_rs = "0.8"
uuid = { version = "1", features = ["v4"] }
chrono = { version = "0.4", features = ["serde"] }
serde = { version = "1", features = ["derive"] }
serde_json = "1"
tokio = { version = "1", features = ["rt-multi-thread", "macros", "sync", "process", "io-util", "time"] }
dirs = "6"
