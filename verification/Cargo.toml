[package]
name = "amica"
version = "0.1.0"
edition = "2021"
publish = false

[dependencies]
anyhow = "1"
clap = { version = "4", features = ["derive"] }
httparse = "1"
hyper = { version = "0.14", features = ["full"] }
rlua = "0.19"
tokio = { version = "1", features = ["full"] }
