[package]
name = "copernica"
version = "0.1.0"
edition = "2021"
publish = false

[dependencies]
cryptoxide = "0.6"
reed-solomon = "0.2"
rand = "0.8"
bitvec = "1.0"
crossbeam-channel = "0.5"
sled = "0.34"
