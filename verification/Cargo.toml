[package]
name = "ezvtb"
version = "0.1.0"
edition = "2021"
publish = false

[dependencies]
clap = { version = "4.5", features = ["derive", "env"] }
crossbeam-channel = "0.5.17"
glam = "0.30"
image = { version = "0.25.10", default-features = false }
nokhwa = { version = "0.10.11", features = ["input-native"] }
ort = { version = "=2.0.0-rc.15", default-features = false, features = ["load-dynamic", "std"] }
ron = "0.12"
serde = { version = "1", features = ["derive"] }
thiserror = "2"
tracing = "0.1"
