[package]
name = "chat_bridge"
version = "0.1.0"
edition = "2021"
publish = false

[dependencies]
crossbeam-channel = "*"
ezsockets = "*"
tokio = { version = "*", features = ["rt-multi-thread", "macros"] }
async-trait = "*"
config = "*"
url = "*"
