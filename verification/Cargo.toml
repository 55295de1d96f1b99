[package]
name = "alcom_template"
version = "0.1.0"
edition = "2021"
publish = false

[dependencies]
serde_json = { version = "1", features = ["preserve_order"] }
chrono = { version = "0.4", default-features = false, features = ["std", "serde"] }
serde = { version = "1", features = ["derive"] }
indexmap = { version = "2", features = ["serde"] }
vrc-get-vpm = "*"
