[package]
name = "microcosm"
version = "0.1.0"
edition = "2021"
publish = false

[dependencies]
chrono = "*"
nix = { version = "*", features = ["mman", "ioctl", "term", "fs"] }
kvm-bindings = { version = "*", features = ["fam-wrappers"] }
clap = { version = "*", features = ["derive"] }
anyhow = "*"
thiserror = "*"
