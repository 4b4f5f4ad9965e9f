[package]
name = "tg_drift"
version = "0.1.0"
edition = "2021"
publish = false

[dependencies]
clap = { version = "4", features = ["derive"] }
tokio = { version = "1", features = ["macros", "process", "rt-multi-thread"] }
tracing-subscriber = { version = "0.3" }
walkdir = { version = "2" }
