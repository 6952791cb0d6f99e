[package]
name = "vectordb"
version = "2024.9.1"
edition = "2021"
publish = false

[dependencies]
rmp-serde = "1"
rmpv = { version = "1", features = ["with-serde"] }
serde = { version = "1", features = ["derive"] }
serde_json = "1"
tokio = { version = "1", features = ["rt-multi-thread", "macros", "net", "io-util", "io-std"] }
atty = "0.2"
