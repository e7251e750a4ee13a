[package]
name = "eesha"
version = "0.1.0"
edition = "2021"
publish = false

[dependencies]
url = { version = "=2.5.8", features = ["serde"] }
keyboard-types = "=0.8.3"
arboard = "=3.7.0"
serde = { version = "=1.0.229", features = ["derive"] }
uuid = { version = "=1.29.1", features = ["serde", "v4"] }
dpi = { version = "=0.1.2", features = ["serde"] }
http = "=1.5.0"
http-serde-ext = "=1.0.2"
ipc-channel = "=0.23.1"
euclid = "=0.22.14"
webrender_api = "=0.70.0"
crossbeam-channel = "=0.5.17"
log = "=0.4.35"
