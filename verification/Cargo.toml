[package]
name = "dreamvault"
version = "0.1.0"
edition = "2021"
publish = false

[dependencies]
serde = { version = "=1.0.229", features = ["derive"] }
serde_json = "=1.0.154"
zip = { version = "=9.2.2", default-features = false, features = ["deflate"] }
sevenz-rust2 = "=0.24.2"
walkdir = "=2.5.0"
directories = "=6.0.0"
wasmi = "=2.0.0"
chrono = "0.4"
uuid = { version = "1", features = ["v4"] }
