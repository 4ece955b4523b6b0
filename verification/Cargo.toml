[package]
name = "links_nonblocking"
version = "0.1.0"
edition = "2021"
publish = false

[dependencies]
bytes = "1"
mio = { version = "0.8", features = ["os-poll", "net"] }
slab = "0.4"
spin = "0.9"
lazy_static = "1"
log = "0.4"
