[package]
name = "bp3d_tracing"
version = "0.1.0"
edition = "2021"
publish = false

[dependencies]
log = "0.4"
time = "0.3"
tokio = { version = "1", features = ["rt", "net", "io-util", "sync", "macros", "time"] }
tracing = "0.1"
tracing-core = "0.1"
