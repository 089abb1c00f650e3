[package]
name = "io_engine"
version = "0.1.0"
edition = "2021"
publish = false

[dependencies]
chrono = "=0.4.45"
nix = { version = "=0.29.0", features = ["sched", "process"] }
futures = "=0.3.34"
tokio = { version = "=1.53.2", features = ["rt-multi-thread", "time", "sync"] }
once_cell = "=1.21.4"
serde = { version = "=1.0.229", features = ["derive"] }
