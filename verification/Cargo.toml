[package]
name = "aether"
version = "0.1.0"
edition = "2021"
publish = false

[dependencies]
boringtun = { version = "*", default-features = false }
futures = "*"
libc = "*"
log = "*"
parking_lot = "*"
rand = "*"
smoltcp = { version = "*", default-features = false, features = ["std", "medium-ip", "proto-ipv4", "proto-ipv6", "socket-tcp", "socket-udp", "socket-tcp-cubic"] }
tokio = { version = "*", features = ["rt", "rt-multi-thread", "macros", "net", "sync", "time"] }
