[package]
name = "console_aggregator"
version = "0.1.0"
edition = "2021"
publish = false

[dependencies]
console-api = "=0.2.0"
futures = "=0.3.34"
tokio = { version = "=1.54.1", features = ["sync", "time", "macros", "rt"] }
tracing = "=0.1.44"
tracing-core = "=0.1.36"
