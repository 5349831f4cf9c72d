[package]
name = "neli"
version = "0.5.0"
edition = "2021"
publish = false

[dependencies]
buffering = { version = "=0.3.4", features = ["copy"] }
libc = "=0.2.191"
mio = "=0.6.23"
tokio = "=0.1.22"
