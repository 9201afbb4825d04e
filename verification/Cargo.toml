[package]
name = "tide_authorize"
version = "0.1.0"
edition = "2021"
publish = false

[dependencies]
base64 = "=0.13.1"
http = "=0.2.12"
pwhash = "=1.0.0"
rand = "=0.8.8"
futures = "=0.3.34"
tide = { version = "=0.16.0", default-features = false, features = ["cookies"] }
