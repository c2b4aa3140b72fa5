[package]
name = "tokio_chat_common"
version = "0.1.0"
edition = "2021"
publish = false

[dependencies]
byteorder = "1"
tokio-core = "0.1"
serde = "1"
serde_json = "1"
