[package]
name = "codec_engine"
version = "0.1.0"
edition = "2021"
publish = false

[dependencies]
data-encoding = "2"
base-x = "0.2"
base85 = "*"
base91 = "*"
sm4 = "0.5"
cipher = { version = "0.4", features = ["block-padding", "alloc"] }
ecb = "0.1"
cbc = "0.1"
cfb-mode = "0.8"
ofb = "0.6"
ctr = "0.9"
trivium = "*"
serde = { version = "1", features = ["derive"] }
serde_json = "1"
uuid = { version = "1", features = ["v4"] }
rusqlite = { version = "*", features = ["bundled"] }
