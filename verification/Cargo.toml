[package]
name = "tfs_core"
version = "0.1.0"
edition = "2021"
publish = false

[dependencies]
rand = "=0.8.8"
mlua = { version = "0.10", features = ["lua54", "vendored"] }
