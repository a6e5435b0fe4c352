[package]
name = "front_line"
version = "0.1.0"
edition = "2021"
publish = false

[dependencies]
memchr = "2"
thiserror = "1"
syn = { version = "2", features = ["full"] }
proc-macro2 = "1"
