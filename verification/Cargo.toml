[package]
name = "basex"
version = "0.1.0"
edition = "2021"
publish = false

[dependencies]
md5 = "0.7"
tokio = { version = "1", default-features = false, features = ["io-util", "net"] }
