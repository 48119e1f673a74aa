[package]
name = "dbi_ftp"
version = "0.1.0"
edition = "2021"
publish = false

[dependencies]
suppaftp = "*"
parking_lot = "*"
