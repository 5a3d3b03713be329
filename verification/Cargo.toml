[package]
name = "task_watchdog"
version = "0.1.0"
edition = "2021"
publish = false

[dependencies]
embassy-time = { version = "*", features = ["std"] }
embassy-sync = "*"
embassy-rp = { version = "*", features = ["rp2040"] }
rp2040-hal = "*"
cortex-m = "*"
