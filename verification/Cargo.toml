[package]
name = "rdiff"
version = "0.0.0"
edition = "2021"
publish = false

[dependencies]
blake2 = "0.8"
byteorder = "1"
cast = "0.2"
clap = "2"
libc = "0.2"
