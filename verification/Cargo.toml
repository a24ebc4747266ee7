[package]
name = "wick_components"
version = "0.1.0"
edition = "2021"
publish = false

[dependencies]
base64 = "=0.21.7"
basic-cookies = "=0.1.5"
cookie = "=0.18.2"
urlencoding = "=2.1.3"
hmac = "=0.13.0"
sha2 = "=0.11.1"
regex = "=1.13.1"
glob = "=0.3.4"
url = "=2.5.8"
xml-rs = "=1.0.0"
csv = "=1.4.0"
chrono = { version = "0.4", default-features = false, features = ["alloc", "std"] }
minijinja = "=2.24.0"
liquid = "=0.26.11"
kstring = "=2.0.0"
jsonpath_lib = "=0.3.0"
liquid-json = "=0.6.1"
stream-unzip = "=0.2.1"
serde = { version = "=1.0.229", features = ["derive"] }
serde_json = "=1.0.154"
serde-xml-rs = "=0.8.2"
serde_yaml = "=0.9.34"
