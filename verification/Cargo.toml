[package]
name = "query_logger"
version = "0.1.0"
edition = "2021"
publish = false

[dependencies]
log = "0.4"
tracing = { version = "0.1", features = ["log"] }

[dev-dependencies]
regex = "1"
