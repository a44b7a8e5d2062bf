[package]
name = "tcpkill"
version = "0.1.0"
edition = "2021"
publish = false

[dependencies]
clap = { version = "*", features = ["derive"] }
libc = "*"
netlink-packet-core = "*"
netlink-packet-sock-diag = "*"
netlink-sys = "*"
