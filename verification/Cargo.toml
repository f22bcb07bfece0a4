[package]
name = "ddos_protection"
version = "0.1.0"
edition = "2021"
publish = false

[dependencies]
tokio = { version = "*", features = ["full"] }
reqwest = { version = "*", default-features = false, features = ["json"] }
redis = "*"
serde = { version = "*", features = ["derive"] }
serde_json = "*"
config = "*"
dotenv = "*"
