[package]
name = "bmd_speededitor"
version = "0.1.0"
edition = "2021"
publish = false

[dependencies]
chrono = { version = "=0.4.45", default-features = false, features = ["clock"] }
hidapi = { version = "=2.6.7", default-features = false, features = ["linux-native-basic-udev"] }
