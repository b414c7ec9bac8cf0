[package]
name = "cudd"
version = "0.1.0"
edition = "2021"
publish = false

[dependencies]
cudd-sys = "*"
libc-stdhandle = "*"
