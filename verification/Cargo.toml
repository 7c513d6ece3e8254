[package]
name = "beewm"
version = "0.1.0"
edition = "2021"
publish = false

[dependencies]
libc = "0.2"
smithay = { version = "0.7", default-features = false, features = ["desktop", "wayland_frontend"] }
tokio = { version = "1", features = ["rt", "sync", "time"] }
tracing = "0.1"
zbus = { version = "4", default-features = false, features = ["tokio"] }
