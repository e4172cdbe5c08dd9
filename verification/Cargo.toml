[package]
name = "questionnaire_core"
version = "0.1.0"
edition = "2021"
publish = false

[dependencies]
bcrypt = "*"
chrono = "*"
jsonwebtoken = "*"
serde = { version = "1", features = ["derive"] }
serde_json = "1"
validator = "*"
