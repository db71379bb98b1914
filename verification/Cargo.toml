[package]
name = "rezygisk"
version = "0.1.0"
edition = "2021"
publish = false

[dependencies]
jni = "0.21"
libc = "0.2"
nix = { version = "0.29", features = ["signal", "process"] }
regex = "1"
