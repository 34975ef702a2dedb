[package]
name = "websocket_key"
version = "0.1.0"
edition = "2021"
publish = false

[dependencies]
base64 = "0.21"
hyper = "0.10"
rand = "0.8"
