[package]
name = "hayashi"
version = "0.1.0"
edition = "2021"
publish = false

[dependencies]
greeners = "*"
ndarray = "*"
indexmap = "*"
rand = "*"
chrono = "*"
