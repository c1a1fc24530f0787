[package]
name = "fps_monitor"
version = "0.1.0"
edition = "2021"
publish = false

[dependencies]
anyhow = "=1.0.104"
aya = "0.14"
log = "=0.4.35"
mio = { version = "=1.2.4", features = ["os-poll", "os-ext"] }
tokio = { version = "=1.54.1", features = ["rt", "sync", "time"] }
