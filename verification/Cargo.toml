[package]
name = "brenn-component-demo"
version = "0.2.0"
edition = "2021"
publish = false

[dependencies]
serde = { version = "1", features = ["derive"] }
serde_json = "1"
