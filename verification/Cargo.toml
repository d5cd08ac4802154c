[package]
name = "qiniu"
version = "0.1.0"
edition = "2021"
publish = false

[dependencies]
crc = "1.8"
crypto-mac = "0.7"
hmac = "0.7"
sha-1 = "0.8"
http = "0.2"
url = "2"
rustc-serialize = "0.3"
reqwest = { version = "0.11", default-features = false }
