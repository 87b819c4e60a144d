[package]
name = "iced_layershell"
version = "0.1.0"
edition = "2021"
publish = false

[dependencies]
futures = "=0.3.34"
iced = { version = "=0.13.1", default-features = false }
iced_core = "=0.13.2"
iced_futures = "=0.13.2"
iced_graphics = "=0.13.0"
iced_runtime = { version = "=0.13.2", features = ["multi-window"] }
layershellev = "=0.14.0"
tracing = "0.1"
