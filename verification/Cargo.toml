[package]
name = "qonvert"
version = "0.1.0"
edition = "2021"
publish = false

[dependencies]
clean-path = "0.2"
tokio = { version = "1", features = ["rt-multi-thread", "macros", "process", "io-util", "fs"] }
futures = "0.3"
clap = { version = "4", features = ["derive"] }
indicatif = "0.17"
