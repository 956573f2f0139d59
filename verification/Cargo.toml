[package]
name = "uio_rs"
version = "0.1.0"
edition = "2021"
publish = false

[dependencies]
byteorder = "1"
memmap2 = "0.9"
libc = "0.2"
clap = "4"
env_logger = "0.11"
