[package]
name = "pastebin"
version = "0.1.0"
edition = "2021"
publish = false

[dependencies]
sled = "=0.34.7"
uuid = { version = "=1.27.0", features = ["v4"] }
serde = { version = "=1.0.229", features = ["derive"] }
tokio = { version = "=1.53.2", features = ["macros", "rt-multi-thread"] }
warp = { version = "=0.4.3", features = ["server"] }
