[package]
name = "xcp"
version = "0.1.0"
edition = "2021"
publish = false

[dependencies]
regex = "1"
num_cpus = "1"
rustix = { version = "0.38", features = ["fs"] }
libc = "0.2"
linux-raw-sys = { version = "0.6", features = ["ioctl"] }
clap = { version = "4", features = ["derive"] }
crossbeam-channel = "0.5"
walkdir = "2"
ignore = "0.4"
indicatif = "0.17"
xattr = "1"
log = "0.4"
simplelog = "0.12"
unbytify = "0.2"
blocking-threadpool = "1"
parking_lot = "0.12"
thiserror = "1"
cfg-if = "1"

[dev-dependencies]
tempfile = "3"
