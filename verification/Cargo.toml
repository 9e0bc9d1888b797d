[package]
name = "meme_relay"
version = "0.1.0"
edition = "2021"
publish = false

[dependencies]
base64 = "=0.13.1"
chrono = "=0.4.45"
rand = "=0.8.8"
reqwest = { version = "=0.13.5", features = ["json"] }
ring = "=0.17.14"
serde_json = "=1.0.151"
tokio = { version = "=1.53.2", features = ["macros", "rt-multi-thread", "time"] }
