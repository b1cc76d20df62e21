[package]
name = "cycle"
version = "0.1.0"
edition = "2021"
publish = false

[dependencies]
num_cpus = "*"
futures-executor = "*"
mio = { version = "*", features = ["os-poll", "net"] }
once_cell = "*"
parking_lot = "*"
pin-project-lite = "*"
socket2 = { version = "*", features = ["all"] }
