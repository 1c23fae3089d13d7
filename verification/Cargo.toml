[package]
name = "ruxy"
version = "0.1.0"
edition = "2021"
publish = false

[dependencies]
bytes = "*"
http-body-util = "*"
hyper = { version = "*", features = ["server", "http1"] }
hyper-util = { version = "*", features = ["tokio"] }
reqwest = { version = "*", default-features = false }
tokio = { version = "*", features = ["rt-multi-thread", "net", "macros"] }
