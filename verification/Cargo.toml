[package]
name = "llmnet"
version = "0.1.0"
edition = "2021"
publish = false

[dependencies]
serde = { version = "=1.0.229", features = ["derive"] }
serde_json = "=1.0.154"
serde_yaml = "=0.9.34"
clap = { version = "=4.6.7", features = ["derive"] }
dirs = "=5.0.1"
thiserror = "=1.0.69"
regex = "=1.13.1"
sha2 = "=0.10.9"
shellexpand = "=3.1.2"
dotenvy = "=0.15.7"
hostname = "=0.4.2"
reqwest = { version = "=0.12.28", default-features = false, features = ["json", "blocking"] }
uuid = { version = "1", features = ["v4"] }
chrono = { version = "0.4", default-features = false, features = ["clock", "std"] }
