[package]
name = "bt_core"
version = "0.1.0"
edition = "2021"
publish = false

[dependencies]
chrono = { version = "=0.4.45", default-features = false }
heapless = { version = "=0.9.3" }
embassy-sync = { version = "=0.8.0" }
embassy-time = { version = "=0.5.1", features = ["std"] }
embassy-futures = { version = "=0.1.2" }
embedded-io-async = { version = "=0.7.0" }
embedded-hal = { version = "=1.0.0" }
critical-section = { version = "=1.2.0", features = ["std"] }
