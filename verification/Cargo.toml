[package]
name = "ember_lox"
version = "0.1.0"
edition = "2021"
publish = false

[dependencies]
dashmap = "*"
unicode-properties = "*"
unicode-xid = "*"
