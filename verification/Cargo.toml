[package]
name = "proxy_speedtest"
version = "0.1.0"
edition = "2021"
publish = false

[dependencies]
regex = "*"
reqwest = { version = "*", features = ["socks"] }
tokio = { version = "*", features = ["macros", "rt-multi-thread", "time"] }
serde = { version = "*", features = ["derive"] }
serde_json = "*"
palc = "*"
