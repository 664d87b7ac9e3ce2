[package]
name = "bbox"
version = "0.1.0"
edition = "2021"
publish = false

[dependencies]
actix-cors = "0.7"
actix-web = "4"
actix-ws = "0.3"
chrono = "0.4"
dotenv = "0.15"
hex = "0.4"
hmac = "0.12"
rand = "0.8"
serde = { version = "1", features = ["derive"] }
serde_json = "1"
sha2 = "0.10"
sqlx = { version = "0.8", features = ["sqlite", "runtime-tokio"] }
tokio-stream = "0.1"
uuid = { version = "1", features = ["v7"] }
validator = { version = "0.18", features = ["derive"] }
