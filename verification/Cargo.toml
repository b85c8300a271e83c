[package]
name = "columnar_core"
version = "0.1.0"
edition = "2021"
publish = false

[dependencies]
serde = { version = "*", features = ["derive"] }
strum_macros = "*"
schemars = "*"
