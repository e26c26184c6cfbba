[package]
name = "ambient_indexer"
version = "0.1.0"
edition = "2021"
publish = false

[dependencies]
clarity = "*"
web30 = "*"
rocksdb = "*"
bincode = "1"
serde = { version = "1", features = ["derive"] }
futures = "0.3"
log = "0.4"
actix-web = "4"
clap = { version = "4", features = ["derive"] }
env_logger = "*"
