[package]
name = "minghe_sip"
version = "0.1.0"
edition = "2021"
publish = false

[dependencies]
hex = "0.4"
md-5 = "0.10"
rand = "0.8"
rcgen = "0.13"
rustls = { version = "0.23", default-features = false, features = ["ring", "std", "tls12"] }
rustls-pemfile = "2"
time = "0.3"
tokio = { version = "1", features = ["rt", "sync", "time"] }
tokio-rustls = { version = "0.26", default-features = false, features = ["ring", "tls12"] }
tracing = "0.1"
