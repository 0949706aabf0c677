[package]
name = "chisel_auth"
version = "0.1.0"
edition = "2021"
publish = false

[dependencies]
urldecode = "*"
rand = "*"
anyhow = "*"
futures = "0.3"
hyper = { version = "0.14", features = ["server", "http1", "tcp"] }
sqlx = { version = "*", default-features = false, features = ["sqlite", "runtime-tokio"] }
tokio = { version = "*", features = ["rt", "rt-multi-thread", "time"] }
