[package]
name = "session_store"
version = "0.1.0"
edition = "2021"
publish = false

[dependencies]
actix-files = "0.6"
actix-multipart = { version = "0.7", default-features = false }
actix-session = "0.10"
actix-web = { version = "4", default-features = false, features = ["macros", "cookies"] }
anyhow = "1"
askama = "0.12"
dotenv = "0.15"
futures-util = "0.3"
sanitize-filename = "*"
time = "0.3"
uuid = { version = "1", features = ["v4"] }
