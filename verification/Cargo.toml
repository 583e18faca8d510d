[package]
name = "svd_patch"
version = "0.1.0"
edition = "2021"

[dependencies]
linked-hash-map = "=0.5.6"
yaml-rust = "=0.4.5"
svd-parser = "0.14"
thiserror = "1"
