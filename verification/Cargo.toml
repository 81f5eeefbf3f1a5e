[package]
name = "holodeck"
version = "0.1.0"
edition = "2021"
publish = false

[dependencies]
smallvec = "1"
tokio = { version = "1", features = ["rt-multi-thread", "net", "sync", "time", "macros"] }
tokio-tungstenite = "*"
futures-util = "0.3"
rand = "*"

[dev-dependencies]
bincode = "1"
