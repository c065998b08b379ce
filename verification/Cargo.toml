[package]
name = "rls_build"
version = "0.1.0"
edition = "2021"
publish = false

[dependencies]
log = "0.4"
rls-data = "0.19"
rls-vfs = "0.8"
