[package]
name = "realm_virt"
version = "0.1.0"
edition = "2021"
publish = false

[dependencies]
anyhow = "1"
ciborium = "0.2"
clap = { version = "4", features = ["derive"] }
command-fds = "0.3"
coset = "0.3"
env_logger = "0.11"
hex = "0.4"
libc = "0.2"
log = "0.4"
nix = { version = "0.29", features = ["fs", "ioctl", "poll", "user", "process"] }
openssl = "0.10"
regex = "1"
ring = "0.17"
semver = "1"
shared_child = "1"
url = "2"
vsock = "0.5"
