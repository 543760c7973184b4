[package]
name = "tcp_balancer"
version = "0.1.0"
edition = "2021"
publish = false

[dependencies]
uuid = { version = "1", features = ["v4"] }
tokio = { version = "1", default-features = false, features = ["net", "io-util", "time", "rt-multi-thread", "sync"] }
log = "0.4"
