[package]
name = "sdsl"
version = "0.1.0"
edition = "2021"
publish = false

[dependencies]
bincode = "1"
blake3 = "1"
anyhow = "1"
walkdir = "2"
fs_extra = "1"
cmake = "0.1"
sharedlib = "7"
libc = "0.2"
