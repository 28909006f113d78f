[package]
name = "pinyin_lib"
version = "0.1.0"
edition = "2021"
publish = false

[dependencies]
anyhow = "1"
byteorder = "1"
futures-lite = "2"
futures-util = "0.3"
log = "0.4"
reqwest = { version = "0.12", default-features = false, features = ["json"] }
reqwest-websocket = "0.5"
rodio = "0.21"
serde = { version = "1", features = ["derive"] }
serde_json = "1"
thiserror = "2"
