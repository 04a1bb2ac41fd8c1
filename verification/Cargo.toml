[package]
name = "tokio_rcu"
version = "0.1.0"
edition = "2021"
publish = false

[dependencies]
branches = "=0.5.1"
index_type = "=0.7.1"
libc = "=0.2.191"
num_cpus = "=1.17.0"
parking_lot = "=0.12.5"
spin = { version = "=0.12.3", features = ["fair_mutex"] }
tokio = { version = "=1.54.1", features = ["full"] }
