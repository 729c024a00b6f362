[package]
name = "slogger"
version = "0.1.0"
edition = "2021"
publish = false

[dependencies]
actix-web = "=4.15.0"
futures-util = "=0.3.34"
slog = { version = "=2.8.2", features = ["dynamic-keys"] }
