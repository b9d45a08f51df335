[package]
name = "ow_replay_renderer"
version = "0.1.0"
edition = "2021"
publish = false

[dependencies]
base64 = "*"
image = { version = "*", default-features = false, features = ["png"] }
imageproc = "*"
serde_json = "*"
websocket = { version = "*", default-features = false, features = ["sync"] }
ctrlc = "*"
chrono = "*"
