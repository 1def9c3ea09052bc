[package]
name = "yomiage_mon"
version = "0.1.0"
edition = "2021"
publish = false

[dependencies]
dashmap = "5"
reqwest = { version = "0.11", default-features = false }
url = "2"
anyhow = "1"
serenity = "0.11"
songbird = "0.3"
tokio = { version = "1", features = ["macros", "rt-multi-thread", "sync", "process", "io-util"] }
dotenv = "0.15"
tracing = "0.1"
