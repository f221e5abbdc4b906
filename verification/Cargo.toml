[package]
name = "netsim"
version = "0.1.0"
edition = "2021"
publish = false

[dependencies]
rand = "=0.8.8"
tokio = { version = "=1.54.1", features = ["rt", "rt-multi-thread", "time", "sync", "macros", "net"] }
futures = "=0.3.34"
libc = "=0.2.191"
