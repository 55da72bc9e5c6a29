[package]
name = "ves"
version = "0.1.0"
edition = "2021"
publish = false

[dependencies]
actix-web = { version = "4", default-features = false, features = ["macros"] }
clap = { version = "4", features = ["derive"] }
config = { version = "*", default-features = false, features = ["toml"] }
env_logger = "*"
jsonschema = { version = "*", default-features = false }
log = "0.4"
rand = "0.8"
rdkafka = "*"
serde_json = "1"
tokio = { version = "1", features = ["rt-multi-thread"] }
