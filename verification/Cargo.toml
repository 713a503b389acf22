[package]
name = "arma-rs"
version = "0.1.0"
edition = "2021"
publish = false

[dependencies]
crossbeam-queue = "0.3"
libc = "0.2"
log = "0.4"
link_args = "*"
