[package]
name = "channel_enrichment"
version = "0.1.0"
edition = "2021"
publish = false

[dependencies]
select = "=0.6.1"
serde = { version = "*", features = ["derive"] }
serde_json = "*"
reqwest = { version = "=0.13.5", default-features = false, features = ["json", "form"] }
tokio = { version = "*", features = ["macros", "rt-multi-thread", "time", "sync", "fs"] }
futures = "*"
actix-web = "*"
actix-cors = "*"
dotenv = "*"
env_logger = "*"
log = "*"
