[package]
name = "elgato_streamdeck"
version = "0.1.0"
edition = "2021"
publish = false

[dependencies]
hidapi = { version = "=2.6.7", default-features = false, features = ["linux-native-basic-udev"] }
image = { version = "=0.24.9", default-features = false, features = ["bmp", "jpeg"] }
tokio = { version = "=1.53.2", default-features = false, features = ["rt", "rt-multi-thread", "time", "sync"] }
