[package]
name = "pgmoneta_mcp"
version = "0.1.0"
edition = "2021"
publish = false

[dependencies]
once_cell = "*"
tracing = "*"
tracing-appender = "*"
tracing-subscriber = { version = "*", features = ["chrono"] }
syslog-tracing = "*"
