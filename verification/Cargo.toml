[package]
name = "rspc"
version = "0.1.0"
edition = "2021"
publish = false

[dependencies]
tokio = { version = "1", features = ["rt", "net", "io-util", "sync", "macros", "time"] }
bytes = "1"
futures = "0.3"
async-trait = "0.1"
