[package]
name = "s2render"
version = "0.1.0"
edition = "2021"
publish = false

[dependencies]
meshopt = "*"
ruzstd = "*"
serde_json = "*"
sha2 = "0.10"
thiserror = "*"
