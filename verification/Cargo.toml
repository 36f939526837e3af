[package]
name = "trojan_relay"
version = "0.1.0"
edition = "2021"
publish = false

[dependencies]
mio = { version = "=1.2.4", features = ["os-poll", "net"] }
rustls = { version = "=0.23.45", default-features = false, features = ["ring", "std", "logging", "tls12"] }
rustls-pemfile = "*"
dns-lookup = "=4.0.2"
rayon = "=1.12.0"
log = "=0.4.34"
