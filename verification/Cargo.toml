[package]
name = "chat-relay"
version = "0.1.0"
edition = "2021"
publish = false

[dependencies]
dotenvy = "0.15"
libc = "0.2"
rand = "0.9"
rustls-pemfile = "2"
serde_json = "1"
subtle = "2"
tokio = { version = "1", features = ["io-util", "macros", "net", "rt-multi-thread", "sync", "time"] }
tokio-rustls = { version = "0.26", default-features = false, features = ["ring", "tls12"] }
tokio-stream = "0.1"
tokio-util = { version = "0.7", features = ["codec"] }
