[package]
name = "rkv"
version = "0.1.0"
edition = "2021"
publish = false

[dependencies]
bincode = "1"
lmdb = "0.8"
thiserror = "1"
