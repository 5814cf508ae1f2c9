[package]
name = "cubizm"
version = "0.1.0"
edition = "2021"
publish = false

[dependencies]
serde = { version = "1", features = ["derive"] }
ron = "0.8"
thiserror = "1"
block-mesh = "0.2"
