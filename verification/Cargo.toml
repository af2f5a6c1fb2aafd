[package]
name = "ggpk_explorer"
version = "0.1.0"
edition = "2021"
publish = false

[dependencies]
byteorder = "=1.5.0"
semver = "=1.0.28"
serde = { version = "=1.0.229", features = ["derive"] }
serde_json = "=1.0.154"
bincode = "=1.3.3"
env_logger = "=0.11.11"
reqwest = { version = "=0.12.28", default-features = false, features = ["blocking", "json", "rustls-tls"] }
image = { version = "0.25", default-features = false, features = ["png", "webp"] }
image_dds = { version = "*", default-features = false, features = ["ddsfile", "image"] }
ddsfile = "*"
hound = "3"
rodio = { version = "*", default-features = false, features = ["vorbis"] }
