[package]
name = "contacts"
version = "0.1.0"
edition = "2021"
publish = false

[dependencies]
base64 = "*"
tokio = { version = "1", features = ["macros", "rt-multi-thread", "fs", "io-util", "sync"] }
warp = { version = "0.3", default-features = false }
serde = { version = "1", features = ["derive"] }
serde_json = "1"
sqlx = { version = "*", default-features = false, features = ["postgres", "runtime-tokio"] }
reqwest = { version = "*", default-features = false, features = ["json"] }
reqwest-middleware = "*"
reqwest-retry = "*"
async-trait = "*"
dotenv = "*"
env_logger = "*"
