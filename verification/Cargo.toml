[package]
name = "rthumb"
version = "0.1.0"
edition = "2021"
publish = false

[dependencies]
md5 = "0.7"
png = "0.17"
url = "2"
image = "0.25"
tokio = { version = "1", features = ["rt", "macros", "sync", "time"] }
zbus = { version = "5", default-features = false, features = ["tokio"] }
serde = { version = "1", features = ["derive"] }
anyhow = "1"
log = "0.4"
env_logger = "0.11"
sd-notify = "*"
rayon = "1"
