[package]
name = "coop_sync"
version = "0.1.0"
edition = "2021"

[dev-dependencies]
tokio = { version = "1", features = ["rt", "rt-multi-thread", "sync", "time"] }
