[package]
name = "sandbox_core"
version = "0.1.0"
edition = "2021"
publish = false

[dependencies]
seccompiler = "*"
syscalls = "0.6.18"
libc = "*"
fork = "*"
