[package]
name = "alpha"
version = "0.1.0"
edition = "2021"
publish = false

[dependencies]
rustc-hash = "2"
rand = "0.8"
tokio = { version = "1", features = ["full"] }
rustls = { version = "0.23", default-features = false, features = ["ring", "std", "tls12", "logging"] }
tokio-rustls = { version = "0.26", default-features = false, features = ["ring", "tls12", "logging"] }
webpki-roots = "0.26"
