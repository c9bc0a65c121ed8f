[package]
name = "my_scrobbler"
version = "0.1.0"
edition = "2021"
publish = false

[dependencies]
rustfm-scrobble = "1"
keyring = { version = "3", features = ["apple-native"] }
objc2 = "0.6"
objc2-foundation = "0.3"
objc2-app-kit = "0.3"
block2 = "0.6"
