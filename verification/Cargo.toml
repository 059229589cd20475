[package]
name = "zerg_pool"
version = "0.1.0"
edition = "2021"
publish = false

[dependencies]
rand = "*"
num_cpus = "*"
uuid = { version = "*", features = ["v4"] }
chrono = { version = "*", default-features = false, features = ["clock"] }
mio = { version = "*", features = ["os-poll", "net"] }
sysinfo = "*"
log = "*"
