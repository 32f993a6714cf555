[package]
name = "graceful_shutdown"
version = "0.1.0"
edition = "2021"
publish = false

[dependencies]
tokio = { version = "=1.54.1", features = ["sync", "rt", "rt-multi-thread", "macros", "time", "signal", "net", "io-util"] }
tokio-util = "=0.7.20"
tracing = "=0.1.44"
atomic = "=0.6.1"
