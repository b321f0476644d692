[package]
name = "ebb"
version = "0.1.0"
edition = "2021"
publish = false

[dependencies]
crossbeam-queue = "0.3"
futures = "0.3"
proc-macro2 = "1"
quote = "1"
smol = "2"
syn = "2"
