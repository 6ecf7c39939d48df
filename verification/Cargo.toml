[package]
name = "reql_core"
version = "0.1.0"
edition = "2021"
publish = false

[dependencies]
ql2 = "*"
serde_json = "*"
byteorder = "*"
