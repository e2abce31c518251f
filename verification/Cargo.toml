[package]
name = "ctvtcntr"
version = "0.1.0"
edition = "2021"
publish = false

[dependencies]
regex = "1"
chrono = "0.4"
ctrlc = "3"
duckdb = "*"
hyprland = "*"
serde = { version = "1", features = ["derive"] }
tracing = "0.1"
tracing-subscriber = "0.3"
