[package]
name = "quotebook"
version = "0.1.0"
edition = "2021"
publish = false

[dependencies]
rand = "0.8"
uuid = { version = "1", features = ["v4"] }
actix-web = "4"
actix-files = "0.6"
actix-multipart = "0.7"
futures = "0.3"
serde = { version = "1", features = ["derive"] }
serde_json = "1"
chrono = { version = "0.4", features = ["serde"] }
toml = "0.8"
html-escape = "0.2"
urlencoding = "2"
