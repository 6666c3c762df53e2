[package]
name = "pipecast"
version = "0.1.0"
edition = "2021"
publish = false

[dependencies]
json-patch = "*"
serde = { version = "*", features = ["derive"] }
serde_json = "*"
tokio = { version = "*", features = ["sync", "rt-multi-thread", "macros", "io-util", "time"] }
tokio-util = { version = "*", features = ["codec"] }
tokio-serde = { version = "*", features = ["json"] }
futures = "*"
interprocess = { version = "*", features = ["tokio"] }
directories = "*"
log = "*"
simplelog = "*"
anyhow = "*"
