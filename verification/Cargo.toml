[package]
name = "space_lt"
version = "0.1.0"
edition = "2021"
publish = false

[dependencies]
anyhow = "*"
crossbeam-channel = "*"
crossterm = "*"
ctrlc = "*"
libc = "*"
rubato = "0.15"
