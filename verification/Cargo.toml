[package]
name = "soundfx"
version = "0.1.0"
edition = "2021"
publish = false

[dependencies]
regex = "1"
serde = { version = "1", features = ["derive"] }
serde_json = "1"
poise = "0.4"
sqlx = { version = "0.6", features = ["runtime-tokio-rustls", "mysql"] }
tokio = { version = "1", features = ["macros", "rt-multi-thread", "process", "fs", "io-util", "sync"] }
dashmap = "5"
dotenv = "0.15"
env_logger = "0.9"
log = "0.4"
lazy_static = "1"
reqwest = { version = "0.11", features = ["json"] }
