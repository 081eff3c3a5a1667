[package]
name = "traefik-phpbb-basic-auth"
version = "0.1.0"
edition = "2021"
publish = false

[dependencies]
base64 = "0.13"
hyper = { version = "0.14", features = ["server", "http1", "tcp"] }
lazy_static = "1"
phpbb-pwhash = "*"
tokio = { version = "1", features = ["rt", "macros"] }
