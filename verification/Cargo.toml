[package]
name = "page_primer"
version = "0.1.0"
edition = "2021"
publish = false

[dependencies]
libc = "0.2"
log = "0.4"
num_threads = "0.1"
