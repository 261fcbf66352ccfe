[package]
name = "hol_core"
version = "0.1.0"
edition = "2021"
publish = false

[dependencies]
zip = "*"
md-5 = "*"
sha1 = "*"
sha2 = "*"
