[package]
name = "dpdk_net_core"
version = "0.1.0"
edition = "2021"
publish = false

[dependencies]
smallvec = "1"
arrayvec = "0.7"
rand = { version = "0.8", features = ["small_rng"] }
thiserror = "1"
libc = "0.2"
