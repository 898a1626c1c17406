[package]
name = "tokio_way_core"
version = "0.1.0"
edition = "2021"
publish = false

[dependencies]
anyhow = "*"
enumflags2 = "*"
libc = "*"
strum = { version = "*", features = ["derive"] }
tokio = { version = "*", features = ["sync", "time", "rt", "macros"] }
tokio-util = "*"
tokio_way_backends = "*"
tokio_way_sock = "*"
tracing = "*"
xcursor = "*"
xkbcommon = "*"
