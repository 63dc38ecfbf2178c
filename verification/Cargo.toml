[package]
name = "skeleton"
version = "0.1.0"
edition = "2021"
publish = false

[dependencies]
actix-cors = "*"
actix-http = "*"
actix-web = { version = "*", default-features = false }
backtrace = "*"
cadence = "*"
config = "*"
futures = "*"
futures-util = "*"
serde = { version = "*", features = ["derive"] }
serde_json = "*"
thiserror = "*"
