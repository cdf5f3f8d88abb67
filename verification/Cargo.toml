[package]
name = "leviathan"
version = "0.1.0"
edition = "2021"
publish = false

[dependencies]
csv-async = { version = "*", features = ["tokio", "with_serde"] }
futures = "*"
rust_decimal = "*"
serde = { version = "*", features = ["derive"] }
thiserror = "*"
tokio = { version = "*", features = ["rt-multi-thread", "macros", "sync", "fs", "io-util", "io-std", "time"] }
tokio-stream = "*"
