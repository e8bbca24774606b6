[package]
name = "drc20_core"
version = "0.1.0"
edition = "2021"
publish = false

[dependencies]
bitcoin = "0.29"
serde = { version = "1", features = ["derive"] }
