[package]
name = "bandsnatch"
version = "0.1.0"
edition = "2021"
publish = false

[dependencies]
chrono = "0.4"
clap = { version = "4", features = ["derive", "env"] }
crossbeam-utils = "0.8"
hmac = "0.12"
indicatif = "0.17"
percent-encoding = "2"
rand = "0.8"
reqwest = { version = "0.12", default-features = false, features = ["blocking", "rustls-tls"] }
sha2 = "0.10"
shellexpand = "3"
url = "2"
