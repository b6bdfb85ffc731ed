[package]
name = "meow_app_launcher"
version = "0.1.0"
edition = "2021"
publish = false

[dependencies]
pinyin = "0.10"
serde = { version = "1", features = ["derive"] }
serde_json = "1"
log = "0.4"
