[package]
name = "cabinet"
version = "0.1.0"
edition = "2021"
publish = false

[dependencies]
aes-gcm = "0.10"
pbkdf2 = "0.12"
sha2 = "0.10"
rand = "0.8"
zip = { version = "0.6", default-features = false }
dirs = "5"
serde = { version = "1", features = ["derive"] }
serde_json = "1"
