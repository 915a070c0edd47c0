[package]
name = "minecraft_ipv6"
version = "0.1.0"
edition = "2021"
publish = false

[dependencies]
anyhow = "1"
chrono = "0.4"
colored = "2"
crossterm = "0.27"
font8x8 = "0.3"
futures = "0.3"
rand = "0.8"
reqwest = { version = "0.11", features = ["json"] }
serde_json = "1"
tokio = { version = "1", features = ["macros", "rt-multi-thread", "time"] }
