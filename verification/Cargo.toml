[package]
name = "rust_url_shortener"
version = "0.1.0"
edition = "2021"
publish = false

[dependencies]
redis = "*"
chrono = "*"
rand = "*"
url = "*"
urlencoding = "*"
serde_json = "*"
log = "*"
log4rs = "*"
ctrlc = "*"
