[package]
name = "nu_php"
version = "0.1.0"
edition = "2021"
publish = false

[dependencies]
dashmap = "5"
futures = "0.3"
http = "0.2"
hyper = { version = "0.14", features = ["full"] }
multer = "2"
rand = "0.8"
tempfile = "3"
thiserror = "1"
tokio = { version = "1", features = ["full"] }
tokio-util = { version = "0.7", features = ["codec"] }
url = "2"
