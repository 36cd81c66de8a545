[package]
name = "ac_internal"
version = "0.1.0"
edition = "2021"
publish = false

[dependencies]
ctor = "0.2"
libloading = "0.8"
nix = { version = "0.29", features = ["mman"] }
