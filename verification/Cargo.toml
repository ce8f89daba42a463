[package]
name = "cold_io"
version = "0.1.0"
edition = "2021"
publish = false

[dependencies]
mio = { version = "=1.2.4", features = ["os-poll", "net"] }
rustix = { version = "=0.38.44", features = ["net"] }
smallvec = "=1.16.2"
