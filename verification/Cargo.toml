[package]
name = "growthbook_rust"
version = "0.1.0"
edition = "2021"
publish = false

[dependencies]
serde = "*"
serde_json = "*"
regex = "*"
base64 = "*"
aes = "*"
cbc = { version = "*", features = ["alloc", "block-padding"] }
tokio = { version = "*", features = ["rt-multi-thread", "macros", "time"] }
reqwest = { version = "*", default-features = false }
reqwest-middleware = "*"
tracing = "*"
