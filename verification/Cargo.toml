[package]
name = "saya-cli"
version = "0.1.0"
edition = "2021"
publish = false

[dependencies]
serde_json = "1"
sha2 = "0.10"
tokio = { version = "1", features = ["rt", "time", "macros", "sync"] }
futures-util = "0.3"
async-trait = "0.1"
