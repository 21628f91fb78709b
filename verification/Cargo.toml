[package]
name = "guestbook"
version = "0.1.0"
edition = "2021"
publish = false

[dependencies]
base64 = "=0.22.1"
getrandom = { version = "=0.2.17", features = ["js"] }
hex = "=0.4.3"
hmac = "=0.12.1"
percent-encoding = "=2.3.2"
serde = { version = "=1.0.229", features = ["derive"] }
serde_json = "=1.0.154"
sha2 = "=0.10.9"
subtle = "=2.6.1"
worker = "=0.4.2"
