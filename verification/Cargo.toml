[package]
name = "overwatch"
version = "0.1.0"
edition = "2021"
publish = false

[dependencies]
chrono = { version = "0.4", features = ["serde"] }
clap = "2.33"
config = "0.9"
failure = "0.1"
lambda_runtime = "0.2"
log = "0.4"
pretty_env_logger = "0.3"
reqwest = "0.9"
rusoto_core = "0.42"
rusoto_s3 = "0.42"
serde = { version = "1.0", features = ["derive"] }
serde_derive = "1.0"
serde_json = "1.0"
serenity = "0.7"
