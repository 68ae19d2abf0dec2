[package]
name = "telemetry_graph"
version = "0.1.0"
edition = "2021"
publish = false

[dependencies]
ratatui = "0.29"
crossterm = "0.28"
serialport = { version = "4", default-features = false }
