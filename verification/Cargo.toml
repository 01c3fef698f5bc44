[package]
name = "launcher"
version = "0.1.0"
edition = "2021"
publish = false

[dependencies]
chrono = { version = "0.4", default-features = false, features = ["clock"] }
serde = { version = "1", features = ["derive"] }
serde_json = "1"
slint = { version = "=1.4.1", default-features = false, features = ["std", "compat-1-2"] }
