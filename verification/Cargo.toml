[package]
name = "ggoled"
version = "0.1.0"
edition = "2021"
publish = false

[dependencies]
anyhow = "=1.0.104"
bdf2 = "=0.7.1"
bit-vec = "=0.10.1"
chrono = { version = "=0.4.45", default-features = false, features = ["clock", "std"] }
ctrlc = "=3.5.2"
directories = "=6.0.0"
hidapi = { version = "=2.6.7", default-features = false, features = ["linux-native-basic-udev"] }
image = { version = "=0.25.10", default-features = false, features = ["png", "gif"] }
rfd = { version = "0.17", default-features = false, features = ["gtk3"] }
rusttype = "=0.9.3"
serde = { version = "=1.0.229", features = ["derive"] }
spin_sleep = "=1.3.3"
tao = "0.37"
toml = "=0.9.12"
tracing = "=0.1.44"
tracing-subscriber = { version = "=0.3.23", features = ["env-filter"] }
tray-icon = "0.26"
