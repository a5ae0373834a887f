[package]
name = "ssping"
version = "0.1.0"
edition = "2021"
publish = false

[dependencies]
url = "*"
shadowsocks = "*"
tokio = { version = "*", features = ["macros", "rt-multi-thread", "signal", "time"] }
hyper = { version = "*", features = ["client", "http1"] }
hyper-util = { version = "*", features = ["tokio"] }
http-body-util = "*"
clap = { version = "*", features = ["derive"] }
anyhow = "*"
