[package]
name = "battle_server"
version = "0.1.0"
edition = "2021"
publish = false

[dependencies]
uuid = { version = "1", features = ["v4", "serde"] }
chrono = { version = "0.4", features = ["serde"] }
serde = { version = "1", features = ["derive"] }
serde_json = "1"
tokio = { version = "1", features = ["full"] }
actix = "0.13"
actix-web = "4"
actix-web-actors = "4"
actix-files = "0.6"
actix-multipart = "0.7"
futures-util = "0.3"
sqlx = { version = "0.8", default-features = false, features = ["runtime-tokio", "sqlite"] }
