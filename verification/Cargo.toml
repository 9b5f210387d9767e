[package]
name = "restream"
version = "0.1.0"
edition = "2021"
publish = false

[dependencies]
bytes = "1"
hyper = { version = "0.14", features = ["full"] }
mpeg2ts = "*"
rml_rtmp = "*"
slab = "0.4"
tokio = { version = "1", features = ["full"] }
tokio-util = { version = "0.7", features = ["codec"] }
websocket = { version = "*", default-features = false, features = ["sync"] }
