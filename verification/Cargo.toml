[package]
name = "linkauth"
version = "0.1.0"
edition = "2021"
publish = false

[dependencies]
argon2 = "*"
base64 = "*"
chrono = "0.4"
dotenvy = "*"
poem = { version = "*", features = ["session"] }
rand = "0.9"
serde = { version = "1", features = ["derive"] }
serde_json = "1"
sqlx = { version = "*", default-features = false, features = ["runtime-tokio", "postgres", "chrono", "uuid"] }
tokio = { version = "1", features = ["rt-multi-thread", "macros"] }
uuid = { version = "1", features = ["v7"] }
