[package]
name = "hp"
version = "0.1.0"
edition = "2021"
publish = false

[dependencies]
byteorder = "1"
bytes = "1"
hpack = "0.3"
color-eyre = "0.6"
rustls = "0.21"
rustls-native-certs = "0.6"
tokio = { version = "1", features = ["full"] }
tokio-rustls = "0.24"
tracing = "0.1"
tracing-subscriber = "0.3"
