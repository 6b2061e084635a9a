[package]
name = "settings_content"
version = "0.1.0"
edition = "2021"
publish = false

[dependencies]
derive_more = { version = "=2.1.1", features = ["from_str"] }
schemars = "=1.2.3"
serde = { version = "=1.0.229", features = ["derive"] }
strum = { version = "=0.27.2", features = ["derive"] }
