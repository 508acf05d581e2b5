[package]
name = "pin_control"
version = "0.1.0"
edition = "2021"
publish = false

[dependencies]
anyhow = "*"
gpiod = "*"
tokio = { version = "*", features = ["fs", "time"] }
