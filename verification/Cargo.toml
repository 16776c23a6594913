[package]
name = "wtiirn"
version = "0.1.0"
edition = "2021"
publish = false

[dependencies]
itertools = "=0.15.0"
uuid = { version = "=1.27.0", features = ["v4", "v5", "serde"] }
chrono = { version = "=0.4.45", features = ["serde"] }
chrono-humanize = "=0.2.3"
serde = { version = "=1.0.229", features = ["derive"] }
serde_json = "=1.0.151"
serde-xml-rs = "=0.8.2"
http = "=0.1.21"
simple-server = "=0.4.0"
uom = "=0.38.0"
