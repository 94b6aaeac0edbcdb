[package]
name = "cert_inspector"
version = "0.1.0"
edition = "2021"
publish = false

[dependencies]
clap = { version = "4", features = ["derive"] }
oid-registry = "*"
pem = "3"
rustls-pemfile = "2"
rustls-pki-types = "1"
x509-parser = "*"
