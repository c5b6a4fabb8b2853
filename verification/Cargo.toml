[package]
name = "yule_log"
version = "0.1.0"
edition = "2021"
publish = false

[dependencies]
ecow = "0.2"
memmap2 = "0.9"
rustc-hash = "2"
