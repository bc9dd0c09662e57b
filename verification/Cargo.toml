[package]
name = "enuminfo_macros"
version = "0.1.0"
edition = "2021"
publish = false

[dependencies]
heck = "0.5"
syn = "2"
quote = "1"
proc-macro2 = "1"
