[package]
name = "dedup_cleaner"
version = "0.1.0"
edition = "2021"
publish = false

[dependencies]
sha2 = "*"
zip = "*"
walkdir = "*"
chrono = "*"
md5 = "*"
uuid = { version = "*", features = ["v4"] }
serde = { version = "*", features = ["derive"] }
serde_json = "*"
