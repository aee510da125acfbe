[package]
name = "simple-hyper-client"
version = "0.1.0"
edition = "2021"
publish = false

[dependencies]
http = "0.2"
hyper = { version = "0.14", features = ["client", "http1", "runtime", "stream"] }
tokio = { version = "1", features = ["rt", "sync", "net", "time", "io-util", "macros"] }
headers = "0.3"
futures-util = "0.3"
futures-executor = "0.3"
tokio-stream = "0.1"
tokio-rustls = { version = "0.26", default-features = false, features = ["ring", "tls12"] }
rustls-pki-types = "1"
webpki-roots = "0.26"
